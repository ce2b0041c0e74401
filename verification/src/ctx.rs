//! The typing context: a per-pass session that walks resolved expressions,
//! consults the oracle and the builtin table, and accumulates hard errors
//! and soft approximations.
//!
//! Every walk is total: an error never stops it.  A failed call validation
//! poisons the expression as `Never` (unreachable); an unknown construct
//! degrades to `Any` with an approximation recorded.

use vstd::prelude::*;
use crate::ast::{
    ArgumentV, Argument, Assign, AssignOp, AssignTarget, AssignTargetV, AssignV, BinOp, BindExpr, BindExprV,
    BindingId, Clause, ClauseV, Expr, ExprKind, ExprKindV, ExprV, ForClause, ForClauseV, Ident,
    IdentV, Lit, ResolvedIdent, ResolvedIdentV, Span,
};
use crate::display::{display_ty_v, ty_to_str};
use crate::intersect::{intersects_v, ITER_PROBE_DEPTH};
use crate::oracle::{
    docs_lookup_v, error_message_v, lemma_docs_view, validate_call_v, Arg, ArgV, OracleDocs,
    TypingAttr, TypingAttrV, TypingBinOp, TypingError, TypingErrorKind, TypingErrorKindV,
    TypingErrorV, TypingOracle, TypingUnOp,
};
use crate::strings::str_to_string;
use crate::ty::{
    clone_ty, lemma_seq_views_of, seq_views_of, ty_view, Approximation, ApproximationV, Ty, TyV,
};
use crate::union::{indexed_v, unions_v};

verus! {

/// The environment: the inferred type of each resolved binding.
#[derive(Debug)]
pub struct Bindings {
    pub(crate) entries: Vec<(u32, Ty)>,
}

/// The models of the entries of an environment.
pub open(crate) spec fn bindings_view(es: Seq<(u32, Ty)>) -> Seq<(u32, TyV)>
    decreases es,
{
    if es.len() == 0 {
        Seq::empty()
    } else {
        bindings_view(es.drop_last()).push((es.last().0, ty_view(es.last().1)))
    }
}

/// `bindings_view` maps the view over the entries.
pub broadcast proof fn lemma_bindings_view(es: Seq<(u32, Ty)>)
    ensures
        #[trigger] bindings_view(es).len() == es.len(),
        forall|i: int|
            0 <= i < es.len() ==> bindings_view(es)[i] == (es[i].0, ty_view(es[i].1)),
    decreases es.len(),
{
    if es.len() > 0 {
        lemma_bindings_view(es.drop_last());
    }
}

/// The first entry for a binding, scanning from the front.
pub open spec fn bind_lookup_v(es: Seq<(u32, TyV)>, id: u32) -> Option<TyV>
    decreases es.len(),
{
    if es.len() == 0 {
        Option::None
    } else if es[0].0 == id {
        Option::Some(es[0].1)
    } else {
        bind_lookup_v(es.drop_first(), id)
    }
}

impl View for Bindings {
    type V = Seq<(u32, TyV)>;

    open(crate) spec fn view(&self) -> Seq<(u32, TyV)> {
        bindings_view(self.entries@)
    }
}

impl Bindings {
    /// An empty environment.
    pub fn new() -> (r: Bindings)
        ensures
            r@ == Seq::<(u32, TyV)>::empty(),
    {
        let r = Bindings { entries: Vec::new() };
        proof {
            assert(r@ =~= Seq::<(u32, TyV)>::empty());
        }
        r
    }

    /// Record the type of a binding; a fresh entry shadows an older one.
    pub fn set(&mut self, id: BindingId, ty: Ty)
        ensures
            final(self)@ == seq![(id.0, ty@)] + old(self)@,
    {
        let ghost oldv = self@;
        self.entries.insert(0, (id.0, ty));
        proof {
            lemma_bindings_view(self.entries@);
            lemma_bindings_view(old(self).entries@);
            assert forall|i: int| 0 <= i < self.entries@.len() implies #[trigger] self.entries@[i]
                == (seq![(id.0, ty)] + old(self).entries@)[i] by {}
            assert(self@ =~= seq![(id.0, ty@)] + oldv);
        }
    }

    /// The type recorded for a binding, if any.
    pub fn lookup(&self, id: BindingId) -> (r: Option<Ty>)
        ensures
            match r {
                Option::Some(t) => bind_lookup_v(self@, id.0) == Option::Some(t@),
                Option::None => bind_lookup_v(self@, id.0) == Option::None::<TyV>,
            },
    {
        let ghost bv = self@;
        proof {
            lemma_bindings_view(self.entries@);
            assert(bv.skip(0) =~= bv);
        }
        let mut i: usize = 0;
        while i < self.entries.len()
            invariant
                bv == self@,
                bv == bindings_view(self.entries@),
                bv.len() == self.entries@.len(),
                i <= self.entries.len(),
                forall|j: int| 0 <= j < self.entries@.len() ==> #[trigger] bv[j] == (
                    self.entries@[j].0,
                    ty_view(self.entries@[j].1),
                ),
                bind_lookup_v(bv, id.0) == bind_lookup_v(bv.skip(i as int), id.0),
            decreases self.entries.len() - i,
        {
            proof {
                assert(bv.skip(i as int)[0] == bv[i as int]);
                assert(bv.skip(i as int).drop_first() =~= bv.skip(i + 1));
            }
            if self.entries[i].0 == id.0 {
                return Option::Some(clone_ty(&self.entries[i].1));
            }
            i = i + 1;
        }
        proof {
            assert(bv.skip(self.entries@.len() as int).len() == 0);
        }
        Option::None
    }
}

/// The models of the elements of a vector of errors.
pub open spec fn errs_view(es: Seq<TypingError>) -> Seq<TypingErrorV>
    decreases es,
{
    if es.len() == 0 {
        Seq::empty()
    } else {
        errs_view(es.drop_last()).push(es.last()@)
    }
}

/// `errs_view` maps the view over the elements.
pub broadcast proof fn lemma_errs_view(es: Seq<TypingError>)
    ensures
        #[trigger] errs_view(es).len() == es.len(),
        forall|i: int| 0 <= i < es.len() ==> errs_view(es)[i] == es[i]@,
    decreases es.len(),
{
    if es.len() > 0 {
        lemma_errs_view(es.drop_last());
    }
}

/// The models of the elements of a vector of approximations.
pub open spec fn approxs_view(es: Seq<Approximation>) -> Seq<ApproximationV>
    decreases es,
{
    if es.len() == 0 {
        Seq::empty()
    } else {
        approxs_view(es.drop_last()).push(es.last()@)
    }
}

/// `approxs_view` maps the view over the elements.
pub broadcast proof fn lemma_approxs_view(es: Seq<Approximation>)
    ensures
        #[trigger] approxs_view(es).len() == es.len(),
        forall|i: int| 0 <= i < es.len() ==> approxs_view(es)[i] == es[i]@,
    decreases es.len(),
{
    if es.len() > 0 {
        lemma_approxs_view(es.drop_last());
    }
}

/// What one walking step computes: the type of the node, and the hard
/// errors and soft approximations it records, in order.
#[verifier::ext_equal]
pub struct CheckV {
    pub ty: TyV,
    pub errs: Seq<TypingErrorV>,
    pub approx: Seq<ApproximationV>,
}

/// The label under which an attribute appears in messages.
pub open spec fn attr_label_v(attr: TypingAttrV) -> Seq<char> {
    match attr {
        TypingAttrV::Regular(s) => s,
        TypingAttrV::Iter => "iter"@,
        TypingAttrV::Index => "index"@,
        TypingAttrV::Slice => "slice"@,
        TypingAttrV::BinOp(op) => match op {
            TypingBinOp::Add => "add"@,
            TypingBinOp::Sub => "sub"@,
            TypingBinOp::Mul => "mul"@,
            TypingBinOp::Div => "div"@,
            TypingBinOp::FloorDiv => "floordiv"@,
            TypingBinOp::Percent => "percent"@,
            TypingBinOp::In => "in"@,
            TypingBinOp::Less => "less"@,
            TypingBinOp::BitAnd => "bit_and"@,
            TypingBinOp::BitOr => "bit_or"@,
            TypingBinOp::BitXor => "bit_xor"@,
            TypingBinOp::LeftShift => "left_shift"@,
            TypingBinOp::RightShift => "right_shift"@,
        },
        TypingAttrV::UnOp(op) => match op {
            TypingUnOp::Minus => "minus"@,
            TypingUnOp::Plus => "plus"@,
            TypingUnOp::BitNot => "bit_not"@,
        },
    }
}

/// The outcome of resolving an attribute on a type: the result, and the
/// approximations recorded along the way.
#[verifier::ext_equal]
pub struct AttrOutV {
    pub res: Result<TyV, ()>,
    pub approx: Seq<ApproximationV>,
}

/// The approximation recorded when the oracle does not know an attribute.
pub open spec fn attr_approx_v(ty: TyV, attr: TypingAttrV) -> ApproximationV {
    ApproximationV {
        category: "oracle.attribute"@,
        message: display_ty_v(ty) + "."@ + attr_label_v(attr),
    }
}

/// Resolution of an attribute on a type: `Any` and `Never` flow through, a
/// union resolves when at least one alternative does (the result is the
/// union of the successes), and anything else asks the oracle; an oracle
/// that does not know makes an approximation, never an error.
pub open spec fn attr_out_v<O: TypingOracle>(o: O, ty: TyV, attr: TypingAttrV) -> AttrOutV
    decreases ty, 1int,
{
    match ty {
        TyV::Any => AttrOutV { res: Result::Ok(TyV::Any), approx: Seq::empty() },
        TyV::Never => AttrOutV { res: Result::Ok(TyV::Never), approx: Seq::empty() },
        TyV::Union(ms) => {
            let out = attr_union_v(o, ms, attr);
            if out.oks.len() == 0 {
                AttrOutV { res: Result::Err(()), approx: out.approx }
            } else {
                AttrOutV { res: Result::Ok(unions_v(out.oks)), approx: out.approx }
            }
        },
        _ => match o.attribute_spec(ty, attr) {
            Option::Some(r) => AttrOutV { res: r, approx: Seq::empty() },
            Option::None => AttrOutV {
                res: Result::Ok(TyV::Any),
                approx: seq![attr_approx_v(ty, attr)],
            },
        },
    }
}

/// The successful resolutions among a union's alternatives.
#[verifier::ext_equal]
pub struct AttrUnionOutV {
    pub oks: Seq<TyV>,
    pub approx: Seq<ApproximationV>,
}

/// Resolution of an attribute on each alternative in turn.
pub open spec fn attr_union_v<O: TypingOracle>(o: O, ms: Seq<TyV>, attr: TypingAttrV) -> AttrUnionOutV
    decreases ms, 2int,
{
    if ms.len() == 0 {
        AttrUnionOutV { oks: Seq::empty(), approx: Seq::empty() }
    } else {
        let head = attr_out_v(o, ms[0], attr);
        let rest = attr_union_v(o, ms.drop_first(), attr);
        match head.res {
            Result::Ok(t) => AttrUnionOutV {
                oks: seq![t] + rest.oks,
                approx: head.approx + rest.approx,
            },
            Result::Err(()) => AttrUnionOutV { oks: rest.oks, approx: head.approx + rest.approx },
        }
    }
}

/// The error recorded when an attribute is not available on a type.
pub open spec fn attr_err_v(ty: TyV, attr: TypingAttrV, span: Span) -> TypingErrorV {
    TypingErrorV {
        span,
        kind: TypingErrorKindV::AttributeNotAvailable {
            typ: display_ty_v(ty),
            attr: attr_label_v(attr),
        },
    }
}

/// What looking up an attribute for an expression computes: the resolved
/// type, or `Never` with an error where no alternative has the attribute.
pub open spec fn expr_attr_v<O: TypingOracle>(
    o: O,
    ty: TyV,
    attr: TypingAttrV,
    span: Span,
) -> CheckV {
    let ao = attr_out_v(o, ty, attr);
    match ao.res {
        Result::Ok(t) => CheckV { ty: t, errs: Seq::empty(), approx: ao.approx },
        Result::Err(()) => CheckV {
            ty: TyV::Never,
            errs: seq![attr_err_v(ty, attr, span)],
            approx: ao.approx,
        },
    }
}

/// What validating a call computes: the result type, or `Never` with the
/// validation error.
pub open spec fn call_out_v<O: TypingOracle>(
    o: O,
    span: Span,
    fun: TyV,
    args: Seq<ArgV>,
) -> CheckV {
    match validate_call_v(&o, span, fun, args) {
        Result::Ok(t) => CheckV { ty: t, errs: Seq::empty(), approx: Seq::empty() },
        Result::Err(e) => CheckV { ty: TyV::Never, errs: seq![e], approx: Seq::empty() },
    }
}

/// The errors of a required-type validation: one exactly where the types
/// cannot intersect.
pub open spec fn type_check_errs_v<O: TypingOracle>(
    o: O,
    got: TyV,
    require: TyV,
    span: Span,
) -> Seq<TypingErrorV> {
    if intersects_v(got, require, &o, ITER_PROBE_DEPTH as nat) {
        Seq::empty()
    } else {
        seq![
            TypingErrorV {
                span,
                kind: TypingErrorKindV::TypeMismatch {
                    got: display_ty_v(got),
                    require: display_ty_v(require),
                },
            },
        ]
    }
}

/// Positional arguments out of plain types.
pub open spec fn pos_args_v(ts: Seq<TyV>) -> Seq<ArgV>
    decreases ts,
{
    if ts.len() == 0 {
        Seq::empty()
    } else {
        pos_args_v(ts.drop_last()).push(ArgV::Pos(ts.last()))
    }
}

/// What dispatching a primitive through an attribute computes: the
/// attribute is resolved on the first operand and the result is
/// call-validated against the remaining operands.
pub open spec fn prim_ty_v<O: TypingOracle>(
    o: O,
    attr: TypingAttrV,
    arg0: TyV,
    args: Seq<TyV>,
    span: Span,
) -> CheckV {
    let fa = expr_attr_v(o, arg0, attr, span);
    let vc = call_out_v(o, span, fa.ty, pos_args_v(args));
    CheckV { ty: vc.ty, errs: fa.errs + vc.errs, approx: fa.approx + vc.approx }
}

/// What resolving a builtin name computes: its type, or `Never` with an
/// unknown-builtin error.
pub open spec fn builtin_out_v(docs: Seq<(Seq<char>, TyV)>, name: Seq<char>, span: Span) -> CheckV {
    match docs_lookup_v(docs, name) {
        Result::Ok(t) => CheckV { ty: t, errs: Seq::empty(), approx: Seq::empty() },
        Result::Err(()) => CheckV {
            ty: TyV::Never,
            errs: seq![
                TypingErrorV { span, kind: TypingErrorKindV::UnknownBuiltin { name } },
            ],
            approx: Seq::empty(),
        },
    }
}

/// The approximation recorded for a lambda.
pub open spec fn lambda_approx_v() -> ApproximationV {
    ApproximationV { category: "We don't type check lambdas"@, message: "()"@ }
}

/// The approximation recorded for an assignment target the checker does not
/// model.
pub open spec fn assign_approx_v(what: Seq<char>) -> ApproximationV {
    ApproximationV { category: "expression_assignment"@, message: what }
}


/// The type a literal has.
pub open spec fn lit_ty_v(l: Lit) -> TyV {
    match l {
        Lit::Int => TyV::Name("int"@),
        Lit::Float => TyV::Name("float"@),
        Lit::Str => TyV::Name("string"@),
    }
}

/// The attribute a binary operator dispatches through.
pub open spec fn bin_attr_v(op: BinOp) -> TypingBinOp {
    match op {
        BinOp::Subtract => TypingBinOp::Sub,
        BinOp::Add => TypingBinOp::Add,
        BinOp::Multiply => TypingBinOp::Mul,
        BinOp::Percent => TypingBinOp::Percent,
        BinOp::Divide => TypingBinOp::Div,
        BinOp::FloorDivide => TypingBinOp::FloorDiv,
        BinOp::BitAnd => TypingBinOp::BitAnd,
        BinOp::BitOr => TypingBinOp::BitOr,
        BinOp::BitXor => TypingBinOp::BitXor,
        BinOp::LeftShift => TypingBinOp::LeftShift,
        BinOp::RightShift => TypingBinOp::RightShift,
        _ => TypingBinOp::Add,
    }
}

/// The attribute an augmented-assignment operator dispatches through.
pub open spec fn assign_attr_v(op: AssignOp) -> TypingBinOp {
    match op {
        AssignOp::Add => TypingBinOp::Add,
        AssignOp::Subtract => TypingBinOp::Sub,
        AssignOp::Multiply => TypingBinOp::Mul,
        AssignOp::Divide => TypingBinOp::Div,
        AssignOp::FloorDivide => TypingBinOp::FloorDiv,
        AssignOp::Percent => TypingBinOp::Percent,
        AssignOp::BitAnd => TypingBinOp::BitAnd,
        AssignOp::BitOr => TypingBinOp::BitOr,
        AssignOp::BitXor => TypingBinOp::BitXor,
        AssignOp::LeftShift => TypingBinOp::LeftShift,
        AssignOp::RightShift => TypingBinOp::RightShift,
    }
}

/// What walking a sequence of expressions computes.
#[verifier::ext_equal]
pub struct ListOutV {
    pub tys: Seq<TyV>,
    pub errs: Seq<TypingErrorV>,
    pub approx: Seq<ApproximationV>,
}

/// What walking the arguments of a call computes.
#[verifier::ext_equal]
pub struct ArgsOutV {
    pub args: Seq<ArgV>,
    pub errs: Seq<TypingErrorV>,
    pub approx: Seq<ApproximationV>,
}

/// What walking the pairs of a dictionary display computes.
#[verifier::ext_equal]
pub struct PairsOutV {
    pub keys: Seq<TyV>,
    pub vals: Seq<TyV>,
    pub errs: Seq<TypingErrorV>,
    pub approx: Seq<ApproximationV>,
}

/// What walking a node purely for its diagnostics computes.
#[verifier::ext_equal]
pub struct DiagV {
    pub errs: Seq<TypingErrorV>,
    pub approx: Seq<ApproximationV>,
}

/// What the operator dispatch of a binary expression computes, once the
/// operand types are known.
pub open spec fn binop_tail_v<O: TypingOracle>(
    o: O,
    op: BinOp,
    lt: TyV,
    rt: TyV,
    span: Span,
) -> CheckV {
    let bool_ret: TyV = if lt == TyV::Never || rt == TyV::Never {
        TyV::Never
    } else {
        TyV::Name("bool"@)
    };
    if op == BinOp::And || op == BinOp::Or {
        CheckV {
            ty: if lt == TyV::Never {
                TyV::Never
            } else {
                unions_v(seq![lt, rt])
            },
            errs: Seq::empty(),
            approx: Seq::empty(),
        }
    } else if op == BinOp::Equal || op == BinOp::NotEqual {
        CheckV { ty: bool_ret, errs: type_check_errs_v(o, lt, rt, span), approx: Seq::empty() }
    } else if op == BinOp::In || op == BinOp::NotIn {
        let pr = prim_ty_v(o, TypingAttrV::BinOp(TypingBinOp::In), rt, seq![lt], span);
        CheckV { ty: bool_ret, errs: pr.errs, approx: pr.approx }
    } else if op == BinOp::Less || op == BinOp::LessOrEqual || op == BinOp::Greater || op
        == BinOp::GreaterOrEqual {
        let pr = prim_ty_v(o, TypingAttrV::BinOp(TypingBinOp::Less), lt, seq![rt], span);
        CheckV { ty: bool_ret, errs: pr.errs, approx: pr.approx }
    } else {
        prim_ty_v(o, TypingAttrV::BinOp(bin_attr_v(op)), lt, seq![rt], span)
    }
}

/// The type of every expression, with the diagnostics the walk records:
/// the model of [`TypingContext::expression_type`].
pub open spec fn ce<O: TypingOracle>(
    o: O,
    docs: Seq<(Seq<char>, TyV)>,
    env: Seq<(u32, TyV)>,
    x: ExprV,
) -> CheckV
    decreases x, 0int,
{
    let span = x.span;
    match x.node {
        ExprKindV::Tuple(xs) => {
            let out = ce_list(o, docs, env, xs);
            CheckV { ty: TyV::Tuple(out.tys), errs: out.errs, approx: out.approx }
        },
        ExprKindV::Dot(a, n, nspan) => {
            let ao = ce(o, docs, env, *a);
            let at = expr_attr_v(o, ao.ty, TypingAttrV::Regular(n), nspan);
            CheckV { ty: at.ty, errs: ao.errs + at.errs, approx: ao.approx + at.approx }
        },
        ExprKindV::Call(f, args) => {
            let ao = ce_args(o, docs, env, args);
            let fo = ce(o, docs, env, *f);
            let vc = call_out_v(o, span, fo.ty, ao.args);
            CheckV {
                ty: vc.ty,
                errs: ao.errs + fo.errs + vc.errs,
                approx: ao.approx + fo.approx + vc.approx,
            }
        },
        ExprKindV::Index(a, b) => {
            let oa = ce(o, docs, env, *a);
            let ob = ce(o, docs, env, *b);
            let pr = prim_ty_v(o, TypingAttrV::Index, oa.ty, seq![ob.ty], span);
            CheckV {
                ty: pr.ty,
                errs: oa.errs + ob.errs + pr.errs,
                approx: oa.approx + ob.approx + pr.approx,
            }
        },
        ExprKindV::Slice(a, e1, e2, e3) => {
            let o1 = ce_bound(o, docs, env, e1);
            let o2 = ce_bound(o, docs, env, e2);
            let o3 = ce_bound(o, docs, env, e3);
            let oa = ce(o, docs, env, *a);
            let at = expr_attr_v(o, oa.ty, TypingAttrV::Slice, span);
            CheckV {
                ty: at.ty,
                errs: o1.errs + o2.errs + o3.errs + oa.errs + at.errs,
                approx: o1.approx + o2.approx + o3.approx + oa.approx + at.approx,
            }
        },
        ExprKindV::Identifier(id) => ce_ident(o, docs, env, id, span),
        ExprKindV::Lambda => CheckV {
            ty: crate::ty::any_function_v(),
            errs: Seq::empty(),
            approx: seq![lambda_approx_v()],
        },
        ExprKindV::Literal(l) => CheckV { ty: lit_ty_v(l), errs: Seq::empty(), approx: Seq::empty() },
        ExprKindV::Not(a) => {
            let ao = ce(o, docs, env, *a);
            CheckV {
                ty: if ao.ty == TyV::Never {
                    TyV::Never
                } else {
                    TyV::Name("bool"@)
                },
                errs: ao.errs,
                approx: ao.approx,
            }
        },
        ExprKindV::Minus(a) => ce_unop(o, docs, env, TypingUnOp::Minus, *a, span),
        ExprKindV::Plus(a) => ce_unop(o, docs, env, TypingUnOp::Plus, *a, span),
        ExprKindV::BitNot(a) => ce_unop(o, docs, env, TypingUnOp::BitNot, *a, span),
        ExprKindV::Op(lhs, op, rhs) => {
            let lo = ce(o, docs, env, *lhs);
            let ro = ce(o, docs, env, *rhs);
            let tail = binop_tail_v(o, op, lo.ty, ro.ty, span);
            CheckV {
                ty: tail.ty,
                errs: lo.errs + ro.errs + tail.errs,
                approx: lo.approx + ro.approx + tail.approx,
            }
        },
        ExprKindV::IfExpr(c, t, f) => {
            let co = ce(o, docs, env, *c);
            let to = ce(o, docs, env, *t);
            let fo = ce(o, docs, env, *f);
            CheckV {
                ty: if co.ty == TyV::Never {
                    TyV::Never
                } else {
                    unions_v(seq![to.ty, fo.ty])
                },
                errs: co.errs + to.errs + fo.errs,
                approx: co.approx + to.approx + fo.approx,
            }
        },
        ExprKindV::ListExpr(xs) => {
            let out = ce_list(o, docs, env, xs);
            CheckV {
                ty: TyV::List(Box::new(unions_v(out.tys))),
                errs: out.errs,
                approx: out.approx,
            }
        },
        ExprKindV::DictExpr(kvs) => {
            let out = ce_pairs(o, docs, env, kvs);
            CheckV {
                ty: TyV::Dict(Box::new(unions_v(out.keys)), Box::new(unions_v(out.vals))),
                errs: out.errs,
                approx: out.approx,
            }
        },
        ExprKindV::ListComprehension(a, f, cs) => {
            let fo = ce(o, docs, env, f.over);
            let cl = ce_clauses_rest(o, docs, env, cs);
            let ao = ce(o, docs, env, *a);
            CheckV {
                ty: TyV::List(Box::new(ao.ty)),
                errs: fo.errs + cl.errs + ao.errs,
                approx: fo.approx + cl.approx + ao.approx,
            }
        },
        ExprKindV::DictComprehension(k, v, f, cs) => {
            let fo = ce(o, docs, env, f.over);
            let cl = ce_clauses_rest(o, docs, env, cs);
            let ko = ce(o, docs, env, *k);
            let vo = ce(o, docs, env, *v);
            CheckV {
                ty: TyV::Dict(Box::new(ko.ty), Box::new(vo.ty)),
                errs: fo.errs + cl.errs + ko.errs + vo.errs,
                approx: fo.approx + cl.approx + ko.approx + vo.approx,
            }
        },
    }
}

/// The walk of an optional slice bound: where present, it is walked and
/// validated against `int`.
pub open spec fn ce_bound<O: TypingOracle>(
    o: O,
    docs: Seq<(Seq<char>, TyV)>,
    env: Seq<(u32, TyV)>,
    e: Option<Box<ExprV>>,
) -> DiagV
    decreases e, 1int,
{
    match e {
        Option::None => DiagV { errs: Seq::empty(), approx: Seq::empty() },
        Option::Some(b) => {
            let out = ce(o, docs, env, *b);
            DiagV {
                errs: out.errs + type_check_errs_v(o, out.ty, TyV::Name("int"@), b.span),
                approx: out.approx,
            }
        },
    }
}

/// The walk of a unary operator dispatched through an attribute.
pub open spec fn ce_unop<O: TypingOracle>(
    o: O,
    docs: Seq<(Seq<char>, TyV)>,
    env: Seq<(u32, TyV)>,
    op: TypingUnOp,
    a: ExprV,
    span: Span,
) -> CheckV
    decreases a, 1int,
{
    let ao = ce(o, docs, env, a);
    let pr = prim_ty_v(o, TypingAttrV::UnOp(op), ao.ty, Seq::empty(), span);
    CheckV { ty: pr.ty, errs: ao.errs + pr.errs, approx: ao.approx + pr.approx }
}

/// The type of an identifier: a local slot consults the environment, a
/// global takes its published type or its builtin entry, and an unresolved
/// identifier degrades to `Any` (the resolution error was already reported
/// elsewhere).
pub open spec fn ce_ident(
    o: impl TypingOracle,
    docs: Seq<(Seq<char>, TyV)>,
    env: Seq<(u32, TyV)>,
    id: IdentV,
    span: Span,
) -> CheckV {
    match id.resolved {
        Option::Some(ResolvedIdentV::Slot(b)) => match bind_lookup_v(env, b.0) {
            Option::Some(t) => CheckV { ty: t, errs: Seq::empty(), approx: Seq::empty() },
            Option::None => CheckV { ty: TyV::Any, errs: Seq::empty(), approx: Seq::empty() },
        },
        Option::Some(ResolvedIdentV::Global(g)) => match g {
            Option::Some(t) => CheckV { ty: t, errs: Seq::empty(), approx: Seq::empty() },
            Option::None => builtin_out_v(docs, id.name, span),
        },
        Option::None => CheckV { ty: TyV::Any, errs: Seq::empty(), approx: Seq::empty() },
    }
}

/// The walk of a sequence of expressions, in order.
pub open spec fn ce_list<O: TypingOracle>(
    o: O,
    docs: Seq<(Seq<char>, TyV)>,
    env: Seq<(u32, TyV)>,
    xs: Seq<ExprV>,
) -> ListOutV
    decreases xs, 1int,
{
    if xs.len() == 0 {
        ListOutV { tys: Seq::empty(), errs: Seq::empty(), approx: Seq::empty() }
    } else {
        let rest = ce_list(o, docs, env, xs.drop_last());
        let out = ce(o, docs, env, xs.last());
        ListOutV {
            tys: rest.tys.push(out.ty),
            errs: rest.errs + out.errs,
            approx: rest.approx + out.approx,
        }
    }
}

/// The walk of the pairs of a dictionary display, each key then its value.
pub open spec fn ce_pairs<O: TypingOracle>(
    o: O,
    docs: Seq<(Seq<char>, TyV)>,
    env: Seq<(u32, TyV)>,
    kvs: Seq<(ExprV, ExprV)>,
) -> PairsOutV
    decreases kvs, 1int,
{
    if kvs.len() == 0 {
        PairsOutV { keys: Seq::empty(), vals: Seq::empty(), errs: Seq::empty(), approx: Seq::empty() }
    } else {
        let rest = ce_pairs(o, docs, env, kvs.drop_last());
        let ko = ce(o, docs, env, kvs.last().0);
        let vo = ce(o, docs, env, kvs.last().1);
        PairsOutV {
            keys: rest.keys.push(ko.ty),
            vals: rest.vals.push(vo.ty),
            errs: rest.errs + ko.errs + vo.errs,
            approx: rest.approx + ko.approx + vo.approx,
        }
    }
}

/// The walk of the arguments of a call, in order.  An `*args` argument is
/// checked to be iterable; a `**kwargs` argument is checked against a
/// dictionary of strings.
pub open spec fn ce_args<O: TypingOracle>(
    o: O,
    docs: Seq<(Seq<char>, TyV)>,
    env: Seq<(u32, TyV)>,
    args: Seq<ArgumentV>,
) -> ArgsOutV
    decreases args, 1int,
{
    if args.len() == 0 {
        ArgsOutV { args: Seq::empty(), errs: Seq::empty(), approx: Seq::empty() }
    } else {
        let rest = ce_args_one(o, docs, env, args.last());
        let front = ce_args(o, docs, env, args.drop_last());
        ArgsOutV {
            args: front.args.push(rest.0),
            errs: front.errs + rest.1.errs,
            approx: front.approx + rest.1.approx,
        }
    }
}

/// The walk of one argument of a call.
pub open spec fn ce_args_one<O: TypingOracle>(
    o: O,
    docs: Seq<(Seq<char>, TyV)>,
    env: Seq<(u32, TyV)>,
    a: ArgumentV,
) -> (ArgV, DiagV)
    decreases a, 2int,
{
    match a {
        ArgumentV::Positional(e) => {
            let out = ce(o, docs, env, e);
            (ArgV::Pos(out.ty), DiagV { errs: out.errs, approx: out.approx })
        },
        ArgumentV::Named(n, e) => {
            let out = ce(o, docs, env, e);
            (ArgV::Name(n, out.ty), DiagV { errs: out.errs, approx: out.approx })
        },
        ArgumentV::Args(e) => {
            let out = ce(o, docs, env, e);
            let it = expr_attr_v(o, out.ty, TypingAttrV::Iter, e.span);
            (
                ArgV::Args(out.ty),
                DiagV { errs: out.errs + it.errs, approx: out.approx + it.approx },
            )
        },
        ArgumentV::KwArgs(e) => {
            let out = ce(o, docs, env, e);
            let errs = type_check_errs_v(
                o,
                out.ty,
                TyV::Dict(Box::new(TyV::Name("string"@)), Box::new(TyV::Any)),
                e.span,
            );
            (ArgV::Kwargs(out.ty), DiagV { errs: out.errs + errs, approx: out.approx })
        },
    }
}

/// One unfolding of the walk of a sequence of expressions.
proof fn lemma_ce_list_unfold<O: TypingOracle>(
    o: O,
    docs: Seq<(Seq<char>, TyV)>,
    env: Seq<(u32, TyV)>,
    s: Seq<ExprV>,
)
    requires
        s.len() > 0,
    ensures
        ce_list(o, docs, env, s) == ({
            let rest = ce_list(o, docs, env, s.drop_last());
            let out = ce(o, docs, env, s.last());
            ListOutV {
                tys: rest.tys.push(out.ty),
                errs: rest.errs + out.errs,
                approx: rest.approx + out.approx,
            }
        }),
{
}

/// One unfolding of the walk of the pairs of a dictionary display.
proof fn lemma_ce_pairs_unfold<O: TypingOracle>(
    o: O,
    docs: Seq<(Seq<char>, TyV)>,
    env: Seq<(u32, TyV)>,
    s: Seq<(ExprV, ExprV)>,
)
    requires
        s.len() > 0,
    ensures
        ce_pairs(o, docs, env, s) == ({
            let rest = ce_pairs(o, docs, env, s.drop_last());
            let ko = ce(o, docs, env, s.last().0);
            let vo = ce(o, docs, env, s.last().1);
            PairsOutV {
                keys: rest.keys.push(ko.ty),
                vals: rest.vals.push(vo.ty),
                errs: rest.errs + ko.errs + vo.errs,
                approx: rest.approx + ko.approx + vo.approx,
            }
        }),
{
}

/// One unfolding of the walk of the trailing clauses of a comprehension.
proof fn lemma_ce_clauses_unfold<O: TypingOracle>(
    o: O,
    docs: Seq<(Seq<char>, TyV)>,
    env: Seq<(u32, TyV)>,
    s: Seq<ClauseV>,
)
    requires
        s.len() > 0,
    ensures
        ce_clauses_rest(o, docs, env, s) == ({
            let front = ce_clauses_rest(o, docs, env, s.drop_last());
            let out = match s.last() {
                ClauseV::For(fc) => ce(o, docs, env, fc.over),
                ClauseV::If(e) => ce(o, docs, env, *e),
            };
            DiagV { errs: front.errs + out.errs, approx: front.approx + out.approx }
        }),
{
}

/// One unfolding of the walk of a single call argument.
proof fn lemma_ce_args_one_unfold<O: TypingOracle>(
    o: O,
    docs: Seq<(Seq<char>, TyV)>,
    env: Seq<(u32, TyV)>,
    a: ArgumentV,
)
    ensures
        ce_args_one(o, docs, env, a) == (match a {
            ArgumentV::Positional(e) => {
                let out = ce(o, docs, env, e);
                (ArgV::Pos(out.ty), DiagV { errs: out.errs, approx: out.approx })
            },
            ArgumentV::Named(n, e) => {
                let out = ce(o, docs, env, e);
                (ArgV::Name(n, out.ty), DiagV { errs: out.errs, approx: out.approx })
            },
            ArgumentV::Args(e) => {
                let out = ce(o, docs, env, e);
                let it = expr_attr_v(o, out.ty, TypingAttrV::Iter, e.span);
                (
                    ArgV::Args(out.ty),
                    DiagV { errs: out.errs + it.errs, approx: out.approx + it.approx },
                )
            },
            ArgumentV::KwArgs(e) => {
                let out = ce(o, docs, env, e);
                let errs = type_check_errs_v(
                    o,
                    out.ty,
                    TyV::Dict(Box::new(TyV::Name("string"@)), Box::new(TyV::Any)),
                    e.span,
                );
                (ArgV::Kwargs(out.ty), DiagV { errs: out.errs + errs, approx: out.approx })
            },
        }),
{
}

/// One unfolding of the walk of the arguments of a call.
proof fn lemma_ce_args_unfold<O: TypingOracle>(
    o: O,
    docs: Seq<(Seq<char>, TyV)>,
    env: Seq<(u32, TyV)>,
    s: Seq<ArgumentV>,
)
    requires
        s.len() > 0,
    ensures
        ce_args(o, docs, env, s) == ({
            let one = ce_args_one(o, docs, env, s.last());
            let front = ce_args(o, docs, env, s.drop_last());
            ArgsOutV {
                args: front.args.push(one.0),
                errs: front.errs + one.1.errs,
                approx: front.approx + one.1.approx,
            }
        }),
{
}

/// The walk of the trailing clauses of a comprehension.
pub open spec fn ce_clauses_rest<O: TypingOracle>(
    o: O,
    docs: Seq<(Seq<char>, TyV)>,
    env: Seq<(u32, TyV)>,
    cs: Seq<ClauseV>,
) -> DiagV
    decreases cs, 2int,
{
    if cs.len() == 0 {
        DiagV { errs: Seq::empty(), approx: Seq::empty() }
    } else {
        let front = ce_clauses_rest(o, docs, env, cs.drop_last());
        let out = match cs.last() {
            ClauseV::For(fc) => ce(o, docs, env, fc.over),
            ClauseV::If(e) => ce(o, docs, env, *e),
        };
        DiagV { errs: front.errs + out.errs, approx: front.approx + out.approx }
    }
}


/// The span a bind expression points at.
pub open spec fn bind_span_v(b: BindExprV) -> Span
    decreases b,
{
    match b {
        BindExprV::Expr(e) => e.span,
        BindExprV::GetIndex(_, b2) => bind_span_v(*b2),
        BindExprV::Iter(b2) => bind_span_v(*b2),
        BindExprV::AssignOp(a, _, _) => a.span,
        BindExprV::SetIndex(_, e, _) => e.span,
        BindExprV::ListAppend(_, e) => e.span,
        BindExprV::ListExtend(_, e) => e.span,
    }
}

/// Whether an assignment target can be typed against the environment: a
/// plain identifier must be a resolved binding with a recorded type.
pub open spec fn assign_wf_v(a: AssignTargetV, env: Seq<(u32, TyV)>) -> bool {
    match a {
        AssignTargetV::Identifier(_, ob) => match ob {
            Option::Some(id) => bind_lookup_v(env, id.0) is Some,
            Option::None => false,
        },
        _ => true,
    }
}

/// Whether a bind expression can be typed against the environment: every
/// binding it reads must have a recorded type.
pub open spec fn bind_wf_v(b: BindExprV, env: Seq<(u32, TyV)>) -> bool
    decreases b,
{
    match b {
        BindExprV::Expr(_) => true,
        BindExprV::GetIndex(_, b2) => bind_wf_v(*b2, env),
        BindExprV::Iter(b2) => bind_wf_v(*b2, env),
        BindExprV::AssignOp(a, _, _) => assign_wf_v(a.node, env),
        BindExprV::SetIndex(id, _, b2) => bind_lookup_v(env, id.0) is Some && bind_wf_v(*b2, env),
        BindExprV::ListAppend(id, _) => bind_lookup_v(env, id.0) is Some,
        BindExprV::ListExtend(id, _) => bind_lookup_v(env, id.0) is Some,
    }
}

/// The refined alternatives of an indexed-set: a list alternative becomes a
/// list of the assigned type, a dictionary alternative a dictionary of the
/// index and assigned types, and anything else is silently skipped.
pub open spec fn set_index_alts_v(ms: Seq<TyV>, it: TyV, et: TyV) -> Seq<TyV>
    decreases ms,
{
    if ms.len() == 0 {
        Seq::empty()
    } else {
        let rest = set_index_alts_v(ms.drop_last(), it, et);
        match ms.last() {
            TyV::List(_) => rest.push(TyV::List(Box::new(et))),
            TyV::Dict(_, _) => rest.push(TyV::Dict(Box::new(it), Box::new(et))),
            _ => rest,
        }
    }
}

/// The model of [`TypingContext::expression_bind_type`].
pub open spec fn cb<O: TypingOracle>(
    o: O,
    docs: Seq<(Seq<char>, TyV)>,
    env: Seq<(u32, TyV)>,
    b: BindExprV,
) -> CheckV
    decreases b, 3int,
{
    match b {
        BindExprV::Expr(e) => ce(o, docs, env, *e),
        BindExprV::GetIndex(i, b2) => {
            let out = cb(o, docs, env, *b2);
            CheckV { ty: indexed_v(out.ty, i), errs: out.errs, approx: out.approx }
        },
        BindExprV::Iter(b2) => {
            let out = cb(o, docs, env, *b2);
            let at = expr_attr_v(o, out.ty, TypingAttrV::Iter, bind_span_v(*b2));
            CheckV { ty: at.ty, errs: out.errs + at.errs, approx: out.approx + at.approx }
        },
        BindExprV::AssignOp(a, op, rhs) => {
            let span = a.span;
            let ro = ce(o, docs, env, *rhs);
            let lo = ca(o, docs, env, *a);
            let pr = prim_ty_v(
                o,
                TypingAttrV::BinOp(assign_attr_v(op)),
                lo.ty,
                seq![ro.ty],
                span,
            );
            CheckV {
                ty: pr.ty,
                errs: ro.errs + lo.errs + pr.errs,
                approx: ro.approx + lo.approx + pr.approx,
            }
        },
        BindExprV::SetIndex(id, index, e) => {
            let span = index.span;
            let io = ce(o, docs, env, *index);
            let eo = cb(o, docs, env, *e);
            let cur = match bind_lookup_v(env, id.0) {
                Option::Some(t) => t,
                Option::None => TyV::Any,
            };
            let tcerrs = if cur is List {
                type_check_errs_v(o, io.ty, TyV::Name("int"@), span)
            } else {
                Seq::empty()
            };
            let res = set_index_alts_v(crate::ty::iter_union_v(cur), io.ty, eo.ty);
            CheckV {
                ty: unions_v(res),
                errs: io.errs + eo.errs + tcerrs,
                approx: io.approx + eo.approx,
            }
        },
        BindExprV::ListAppend(id, e) => {
            let cur = match bind_lookup_v(env, id.0) {
                Option::Some(t) => t,
                Option::None => TyV::Any,
            };
            if cur != TyV::Never && intersects_v(
                cur,
                TyV::List(Box::new(TyV::Any)),
                &o,
                ITER_PROBE_DEPTH as nat,
            ) {
                let eo = ce(o, docs, env, *e);
                CheckV { ty: TyV::List(Box::new(eo.ty)), errs: eo.errs, approx: eo.approx }
            } else {
                CheckV { ty: TyV::Never, errs: Seq::empty(), approx: Seq::empty() }
            }
        },
        BindExprV::ListExtend(id, e) => {
            let cur = match bind_lookup_v(env, id.0) {
                Option::Some(t) => t,
                Option::None => TyV::Any,
            };
            if cur != TyV::Never && intersects_v(
                cur,
                TyV::List(Box::new(TyV::Any)),
                &o,
                ITER_PROBE_DEPTH as nat,
            ) {
                let eo = ce(o, docs, env, *e);
                let at = expr_attr_v(o, eo.ty, TypingAttrV::Iter, e.span);
                CheckV {
                    ty: TyV::List(Box::new(at.ty)),
                    errs: eo.errs + at.errs,
                    approx: eo.approx + at.approx,
                }
            } else {
                CheckV { ty: TyV::Never, errs: Seq::empty(), approx: Seq::empty() }
            }
        },
    }
}

/// The model of [`TypingContext::expression_assign`].
pub open spec fn ca<O: TypingOracle>(
    o: O,
    docs: Seq<(Seq<char>, TyV)>,
    env: Seq<(u32, TyV)>,
    a: AssignV,
) -> CheckV
    decreases a, 4int,
{
    match a.node {
        AssignTargetV::Tuple(_) => CheckV {
            ty: TyV::Any,
            errs: Seq::empty(),
            approx: seq![assign_approx_v("tuple target"@)],
        },
        AssignTargetV::Index(x, b) => {
            let oa = ce(o, docs, env, *x);
            let ob = ce(o, docs, env, *b);
            let pr = prim_ty_v(o, TypingAttrV::Index, oa.ty, seq![ob.ty], a.span);
            CheckV {
                ty: pr.ty,
                errs: oa.errs + ob.errs + pr.errs,
                approx: oa.approx + ob.approx + pr.approx,
            }
        },
        AssignTargetV::Dot(_, _) => CheckV {
            ty: TyV::Any,
            errs: Seq::empty(),
            approx: seq![assign_approx_v("attribute target"@)],
        },
        AssignTargetV::Identifier(_, ob) => {
            let cur = match ob {
                Option::Some(id) => match bind_lookup_v(env, id.0) {
                    Option::Some(t) => t,
                    Option::None => TyV::Any,
                },
                Option::None => TyV::Any,
            };
            CheckV { ty: cur, errs: Seq::empty(), approx: Seq::empty() }
        },
    }
}


/// The per-pass typing session: the oracle, the builtin table, the
/// environment of binding types, and the two diagnostics accumulators.
#[derive(Debug)]
pub struct TypingContext<O> {
    /// The lookup service for attribute, subtype and known-type queries.
    pub oracle: O,
    /// The types of the builtin symbols.
    pub global_docs: OracleDocs,
    /// The inferred type of each resolved binding.
    pub types: Bindings,
    /// The hard errors recorded so far, in order.
    pub errors: Vec<TypingError>,
    /// The soft approximations recorded so far, in order.
    pub approximations: Vec<Approximation>,
}

/// Whether two sessions agree on everything but their diagnostics.
pub open spec fn same_session<O: TypingOracle>(a: TypingContext<O>, b: TypingContext<O>) -> bool {
    a.oracle == b.oracle && a.global_docs == b.global_docs && a.types == b.types
}

/// The label under which an attribute appears in messages.
fn attr_label(attr: &TypingAttr) -> (r: String)
    ensures
        r@ == attr_label_v(attr@),
{
    match attr {
        TypingAttr::Regular(s) => s.clone(),
        TypingAttr::Iter => str_to_string("iter"),
        TypingAttr::Index => str_to_string("index"),
        TypingAttr::Slice => str_to_string("slice"),
        TypingAttr::BinOp(op) => match op {
            TypingBinOp::Add => str_to_string("add"),
            TypingBinOp::Sub => str_to_string("sub"),
            TypingBinOp::Mul => str_to_string("mul"),
            TypingBinOp::Div => str_to_string("div"),
            TypingBinOp::FloorDiv => str_to_string("floordiv"),
            TypingBinOp::Percent => str_to_string("percent"),
            TypingBinOp::In => str_to_string("in"),
            TypingBinOp::Less => str_to_string("less"),
            TypingBinOp::BitAnd => str_to_string("bit_and"),
            TypingBinOp::BitOr => str_to_string("bit_or"),
            TypingBinOp::BitXor => str_to_string("bit_xor"),
            TypingBinOp::LeftShift => str_to_string("left_shift"),
            TypingBinOp::RightShift => str_to_string("right_shift"),
        },
        TypingAttr::UnOp(op) => match op {
            TypingUnOp::Minus => str_to_string("minus"),
            TypingUnOp::Plus => str_to_string("plus"),
            TypingUnOp::BitNot => str_to_string("bit_not"),
        },
    }
}

impl<O: TypingOracle> TypingContext<O> {
    /// A fresh session over an oracle, a builtin table and a pre-populated
    /// environment, with no diagnostics yet.
    pub fn new(oracle: O, global_docs: OracleDocs, types: Bindings) -> (r: TypingContext<O>)
        ensures
            r.oracle == oracle,
            r.global_docs == global_docs,
            r.types == types,
            r.errors@ == Seq::<TypingError>::empty(),
            r.approximations@ == Seq::<Approximation>::empty(),
    {
        TypingContext { oracle, global_docs, types, errors: Vec::new(), approximations: Vec::new() }
    }

    /// Record a hard error; the expression is poisoned as `Never`.
    fn add_error(&mut self, e: TypingError) -> (r: Ty)
        ensures
            r@ == TyV::Never,
            errs_view(final(self).errors@) == errs_view(old(self).errors@).push(e@),
            final(self).approximations == old(self).approximations,
            same_session(*final(self), *old(self)),
    {
        proof {
            assert(self.errors@.push(e).drop_last() =~= self.errors@);
        }
        self.errors.push(e);
        Ty::Never
    }

    /// Record an approximation; the expression degrades to `Any`.
    pub fn approximation(&mut self, category: &'static str, message: String) -> (r: Ty)
        ensures
            r@ == TyV::Any,
            approxs_view(final(self).approximations@) == approxs_view(
                old(self).approximations@,
            ).push(ApproximationV { category: category@, message: message@ }),
            final(self).errors == old(self).errors,
            same_session(*final(self), *old(self)),
    {
        let a = Approximation::new(category, message);
        proof {
            assert(self.approximations@.push(a).drop_last() =~= self.approximations@);
        }
        self.approximations.push(a);
        Ty::Any
    }

    /// Resolve an attribute on a type, recording approximations for what
    /// the oracle does not know.
    fn ty_attribute(&mut self, ty: &Ty, attr: &TypingAttr) -> (r: Result<Ty, ()>)
        ensures
            ({
                let out = attr_out_v(old(self).oracle, ty@, attr@);
                &&& match r {
                    Result::Ok(t) => out.res == Result::Ok::<TyV, ()>(t@),
                    Result::Err(()) => out.res == Result::Err::<TyV, ()>(()),
                }
                &&& approxs_view(final(self).approximations@) == approxs_view(
                    old(self).approximations@,
                ) + out.approx
                &&& final(self).errors == old(self).errors
                &&& same_session(*final(self), *old(self))
            }),
        decreases *ty, 1int,
    {
        match ty {
            Ty::Any => {
                proof {
                    assert(approxs_view(self.approximations@) =~= approxs_view(
                        self.approximations@,
                    ) + Seq::<ApproximationV>::empty());
                }
                Result::Ok(Ty::Any)
            },
            Ty::Never => {
                proof {
                    assert(approxs_view(self.approximations@) =~= approxs_view(
                        self.approximations@,
                    ) + Seq::<ApproximationV>::empty());
                }
                Result::Ok(Ty::Never)
            },
            Ty::Union(u) => {
                let oks = self.ty_attribute_union(&u.alternatives, attr);
                if oks.len() == 0 {
                    Result::Err(())
                } else {
                    Result::Ok(Ty::unions(oks))
                }
            },
            _ => {
                match self.oracle.attribute(ty, attr) {
                    Option::Some(r) => {
                        proof {
                            assert(approxs_view(self.approximations@) =~= approxs_view(
                                self.approximations@,
                            ) + Seq::<ApproximationV>::empty());
                        }
                        r
                    },
                    Option::None => {
                        let mut msg = ty_to_str(ty);
                        msg.append(".");
                        let lab = attr_label(attr);
                        msg.append(lab.as_str());
                        let t = self.approximation("oracle.attribute", msg);
                        proof {
                            assert(approxs_view(old(self).approximations@).push(
                                attr_approx_v(ty@, attr@),
                            ) =~= approxs_view(old(self).approximations@) + seq![
                                attr_approx_v(ty@, attr@),
                            ]);
                        }
                        Result::Ok(t)
                    },
                }
            },
        }
    }

    /// Resolve an attribute on each alternative of a union, collecting the
    /// successes.
    fn ty_attribute_union(&mut self, ms: &Vec<Ty>, attr: &TypingAttr) -> (oks: Vec<Ty>)
        ensures
            ({
                let out = attr_union_v(old(self).oracle, seq_views_of(ms@), attr@);
                &&& seq_views_of(oks@) == out.oks
                &&& approxs_view(final(self).approximations@) == approxs_view(
                    old(self).approximations@,
                ) + out.approx
                &&& final(self).errors == old(self).errors
                &&& same_session(*final(self), *old(self))
            }),
        decreases *ms, 0int,
    {
        let ghost msv = seq_views_of(ms@);
        let ghost o0 = self.oracle;
        let ghost approx0 = approxs_view(self.approximations@);
        proof {
            lemma_seq_views_of(ms@);
            assert(msv.skip(0) =~= msv);
        }
        let mut oks: Vec<Ty> = Vec::new();
        let mut i: usize = 0;
        while i < ms.len()
            invariant
                msv == seq_views_of(ms@),
                msv.len() == ms@.len(),
                i <= ms.len(),
                o0 == self.oracle,
                forall|j: int| 0 <= j < ms@.len() ==> #[trigger] msv[j] == ty_view(ms@[j]),
                attr_union_v(o0, msv, attr@).oks =~= seq_views_of(oks@) + attr_union_v(
                    o0,
                    msv.skip(i as int),
                    attr@,
                ).oks,
                attr_union_v(o0, msv, attr@).approx =~= approxs_view(
                    self.approximations@,
                ).skip(approx0.len() as int) + attr_union_v(o0, msv.skip(i as int), attr@).approx,
                approxs_view(self.approximations@).take(approx0.len() as int) =~= approx0,
                approxs_view(self.approximations@).len() >= approx0.len(),
                self.errors == old(self).errors,
                same_session(*self, *old(self)),
            decreases ms.len() - i,
        {
            proof {
                assert(msv.skip(i as int)[0] == msv[i as int]);
                assert(msv.skip(i as int).drop_first() =~= msv.skip(i + 1));
                lemma_seq_views_of(oks@);
            }
            let ghost approx_pre = approxs_view(self.approximations@);
            let res = self.ty_attribute(&ms[i], attr);
            match res {
                Result::Ok(t) => {
                    proof {
                        lemma_seq_views_of(oks@.push(t));
                        assert(seq_views_of(oks@.push(t)).drop_last() =~= seq_views_of(oks@));
                        assert(seq_views_of(oks@.push(t)) =~= seq_views_of(oks@).push(t@));
                    }
                    oks.push(t);
                },
                Result::Err(()) => {},
            }
            i = i + 1;
            proof {
                assert(approxs_view(self.approximations@).take(approx0.len() as int)
                    =~= approx0);
                assert(attr_union_v(o0, msv, attr@).oks =~= seq_views_of(oks@) + attr_union_v(
                    o0,
                    msv.skip(i as int),
                    attr@,
                ).oks);
                assert(attr_union_v(o0, msv, attr@).approx =~= approxs_view(
                    self.approximations@,
                ).skip(approx0.len() as int) + attr_union_v(o0, msv.skip(i as int), attr@).approx);
            }
        }
        proof {
            assert(msv.skip(ms@.len() as int).len() == 0);
            assert(attr_union_v(o0, msv.skip(ms@.len() as int), attr@).oks
                =~= Seq::<TyV>::empty());
            assert(attr_union_v(o0, msv.skip(ms@.len() as int), attr@).approx
                =~= Seq::<ApproximationV>::empty());
            assert(seq_views_of(oks@) =~= attr_union_v(o0, msv, attr@).oks);
            assert(approxs_view(self.approximations@) =~= approx0 + attr_union_v(
                o0,
                msv,
                attr@,
            ).approx);
        }
        oks
    }
}


/// Whether a walking step took the session from `pre` to `post` recording
/// exactly the diagnostics of `out`.
pub open spec fn walked<O: TypingOracle>(
    pre: TypingContext<O>,
    post: TypingContext<O>,
    out: CheckV,
) -> bool {
    walked_d(pre, post, out.errs, out.approx)
}

/// Whether a walking step took the session from `pre` to `post` recording
/// exactly the given errors and approximations, in order.
pub open spec fn walked_d<O: TypingOracle>(
    pre: TypingContext<O>,
    post: TypingContext<O>,
    errs: Seq<TypingErrorV>,
    approx: Seq<ApproximationV>,
) -> bool {
    &&& errs_view(post.errors@) == errs_view(pre.errors@) + errs
    &&& approxs_view(post.approximations@) == approxs_view(pre.approximations@) + approx
    &&& same_session(post, pre)
}

/// Two walking steps in a row record their diagnostics in order.
proof fn lemma_walk2<O: TypingOracle>(
    s0: TypingContext<O>,
    s1: TypingContext<O>,
    s2: TypingContext<O>,
    e1: Seq<TypingErrorV>,
    a1: Seq<ApproximationV>,
    e2: Seq<TypingErrorV>,
    a2: Seq<ApproximationV>,
)
    requires
        walked_d(s0, s1, e1, a1),
        walked_d(s1, s2, e2, a2),
    ensures
        walked_d(s0, s2, e1 + e2, a1 + a2),
{
    assert(errs_view(s2.errors@) =~= errs_view(s0.errors@) + (e1 + e2));
    assert(approxs_view(s2.approximations@) =~= approxs_view(s0.approximations@) + (a1 + a2));
}

/// A walking step that records nothing.
proof fn lemma_walk0<O: TypingOracle>(s0: TypingContext<O>, s1: TypingContext<O>)
    requires
        s0.errors == s1.errors,
        s0.approximations == s1.approximations,
        same_session(s1, s0),
    ensures
        walked_d(s0, s1, Seq::empty(), Seq::empty()),
{
    assert(errs_view(s1.errors@) =~= errs_view(s0.errors@) + Seq::<TypingErrorV>::empty());
    assert(approxs_view(s1.approximations@) =~= approxs_view(s0.approximations@)
        + Seq::<ApproximationV>::empty());
}

/// Positional arguments out of plain types.
fn to_pos_args(ts: Vec<Ty>) -> (r: Vec<Arg>)
    ensures
        crate::oracle::call_args_view(r@) == pos_args_v(seq_views_of(ts@)),
{
    let ghost tsv = seq_views_of(ts@);
    proof {
        lemma_seq_views_of(ts@);
    }
    let mut r: Vec<Arg> = Vec::new();
    let mut i: usize = 0;
    while i < ts.len()
        invariant
            tsv == seq_views_of(ts@),
            tsv.len() == ts@.len(),
            i <= ts.len(),
            forall|j: int| 0 <= j < ts@.len() ==> #[trigger] tsv[j] == ty_view(ts@[j]),
            crate::oracle::call_args_view(r@) =~= pos_args_v(tsv.take(i as int)),
        decreases ts.len() - i,
    {
        let c = clone_ty(&ts[i]);
        proof {
            crate::oracle::lemma_call_args_view(r@);
            crate::oracle::lemma_call_args_view(r@.push(Arg::Pos(c)));
            assert(r@.push(Arg::Pos(c)).drop_last() =~= r@);
            assert(crate::oracle::call_args_view(r@.push(Arg::Pos(c))).drop_last()
                =~= crate::oracle::call_args_view(r@));
            assert(tsv.take(i + 1).drop_last() =~= tsv.take(i as int));
            assert(tsv.take(i + 1).last() == tsv[i as int]);
        }
        r.push(Arg::Pos(c));
        i = i + 1;
        proof {
            assert(crate::oracle::call_args_view(r@) =~= pos_args_v(tsv.take(i as int)));
        }
    }
    proof {
        assert(tsv.take(ts@.len() as int) =~= tsv);
    }
    r
}

impl<O: TypingOracle> TypingContext<O> {
    /// Look up an attribute for an expression, reporting an error where no
    /// alternative has it.
    fn expression_attribute(&mut self, ty: &Ty, attr: TypingAttr, span: Span) -> (r: Ty)
        ensures
            ({
                let out = expr_attr_v(old(self).oracle, ty@, attr@, span);
                r@ == out.ty && walked(*old(self), *final(self), out)
            }),
    {
        let ghost pre = *self;
        match self.ty_attribute(ty, &attr) {
            Result::Ok(t) => {
                proof {
                    assert(errs_view(self.errors@) =~= errs_view(pre.errors@)
                        + Seq::<TypingErrorV>::empty());
                }
                t
            },
            Result::Err(()) => {
                let e = TypingError {
                    span,
                    kind: TypingErrorKind::AttributeNotAvailable {
                        typ: ty_to_str(ty),
                        attr: attr_label(&attr),
                    },
                };
                let ghost ev = e@;
                let r = self.add_error(e);
                proof {
                    assert(errs_view(pre.errors@).push(ev) =~= errs_view(pre.errors@) + seq![
                        ev,
                    ]);
                }
                r
            },
        }
    }

    /// Validate a call, poisoning the expression as `Never` on failure.
    fn validate_call_ctx(&mut self, fun: &Ty, args: &Vec<Arg>, span: Span) -> (r: Ty)
        ensures
            ({
                let out = call_out_v(
                    old(self).oracle,
                    span,
                    fun@,
                    crate::oracle::call_args_view(args@),
                );
                r@ == out.ty && walked(*old(self), *final(self), out)
            }),
    {
        let ghost pre = *self;
        match crate::oracle::validate_call(&self.oracle, span, fun, args) {
            Result::Ok(t) => {
                proof {
                    assert(errs_view(self.errors@) =~= errs_view(pre.errors@)
                        + Seq::<TypingErrorV>::empty());
                    assert(approxs_view(self.approximations@) =~= approxs_view(
                        pre.approximations@,
                    ) + Seq::<ApproximationV>::empty());
                }
                t
            },
            Result::Err(e) => {
                let ghost ev = e@;
                let r = self.add_error(e);
                proof {
                    assert(errs_view(pre.errors@).push(ev) =~= errs_view(pre.errors@) + seq![
                        ev,
                    ]);
                    assert(approxs_view(self.approximations@) =~= approxs_view(
                        pre.approximations@,
                    ) + Seq::<ApproximationV>::empty());
                }
                r
            },
        }
    }

    /// Validate that a type intersects a required type, recording an error
    /// where it cannot.
    pub fn validate_type(&mut self, got: &Ty, require: &Ty, span: Span)
        ensures
            walked_d(
                *old(self),
                *final(self),
                type_check_errs_v(old(self).oracle, got@, require@, span),
                Seq::empty(),
            ),
    {
        let ghost pre = *self;
        match crate::oracle::validate_type(&self.oracle, got, require, span) {
            Result::Ok(()) => {
                proof {
                    assert(errs_view(self.errors@) =~= errs_view(pre.errors@)
                        + Seq::<TypingErrorV>::empty());
                    assert(approxs_view(self.approximations@) =~= approxs_view(
                        pre.approximations@,
                    ) + Seq::<ApproximationV>::empty());
                }
            },
            Result::Err(e) => {
                let ghost ev = e@;
                let _ = self.add_error(e);
                proof {
                    assert(errs_view(pre.errors@).push(ev) =~= errs_view(pre.errors@) + seq![
                        ev,
                    ]);
                    assert(approxs_view(self.approximations@) =~= approxs_view(
                        pre.approximations@,
                    ) + Seq::<ApproximationV>::empty());
                }
            },
        }
    }

    /// The type of a builtin name, with an unknown-builtin error where the
    /// table has no entry.
    fn builtin(&mut self, name: &str, span: Span) -> (r: Ty)
        ensures
            ({
                let out = builtin_out_v(old(self).global_docs@, name@, span);
                r@ == out.ty && walked(*old(self), *final(self), out)
            }),
    {
        let ghost pre = *self;
        match self.global_docs.builtin(name) {
            Result::Ok(t) => {
                proof {
                    assert(errs_view(self.errors@) =~= errs_view(pre.errors@)
                        + Seq::<TypingErrorV>::empty());
                    assert(approxs_view(self.approximations@) =~= approxs_view(
                        pre.approximations@,
                    ) + Seq::<ApproximationV>::empty());
                }
                t
            },
            Result::Err(()) => {
                let e = TypingError {
                    span,
                    kind: TypingErrorKind::UnknownBuiltin { name: str_to_string(name) },
                };
                let ghost ev = e@;
                let r = self.add_error(e);
                proof {
                    assert(errs_view(pre.errors@).push(ev) =~= errs_view(pre.errors@) + seq![
                        ev,
                    ]);
                    assert(approxs_view(self.approximations@) =~= approxs_view(
                        pre.approximations@,
                    ) + Seq::<ApproximationV>::empty());
                }
                r
            },
        }
    }

    /// The element type of an iterable, through the iteration attribute.
    fn from_iterated(&mut self, ty: &Ty, span: Span) -> (r: Ty)
        ensures
            ({
                let out = expr_attr_v(old(self).oracle, ty@, TypingAttrV::Iter, span);
                r@ == out.ty && walked(*old(self), *final(self), out)
            }),
    {
        self.expression_attribute(ty, TypingAttr::Iter, span)
    }

    /// Dispatch a primitive operation: the attribute is resolved on the
    /// first operand and the result is call-validated on the rest.
    fn expression_primitive_ty(
        &mut self,
        attr: TypingAttr,
        arg0: Ty,
        args: Vec<Ty>,
        span: Span,
    ) -> (r: Ty)
        ensures
            ({
                let out = prim_ty_v(
                    old(self).oracle,
                    attr@,
                    arg0@,
                    seq_views_of(args@),
                    span,
                );
                r@ == out.ty && walked(*old(self), *final(self), out)
            }),
    {
        let ghost pre = *self;
        let ghost attrv = attr@;
        let ghost argsv = seq_views_of(args@);
        let fun = self.expression_attribute(&arg0, attr, span);
        let ghost mid = *self;
        let pos = to_pos_args(args);
        let r = self.validate_call_ctx(&fun, &pos, span);
        proof {
            let fa = expr_attr_v(pre.oracle, arg0@, attrv, span);
            let vc = call_out_v(pre.oracle, span, fa.ty, pos_args_v(argsv));
            assert(errs_view(self.errors@) =~= errs_view(pre.errors@) + (fa.errs + vc.errs));
            assert(approxs_view(self.approximations@) =~= approxs_view(pre.approximations@) + (
            fa.approx + vc.approx));
        }
        r
    }
}


impl<O: TypingOracle> TypingContext<O> {
    /// The type of an expression.  The walk is total: it always completes,
    /// recording hard errors and soft approximations on the side, and the
    /// result degrades to `Never` (unreachable) or `Any` per construct.
    pub fn expression_type(&mut self, x: &Expr) -> (r: Ty)
        ensures
            ({
                let out = ce(old(self).oracle, old(self).global_docs@, old(self).types@, x@);
                r@ == out.ty && walked(*old(self), *final(self), out)
            }),
        decreases *x, 3int,
    {
        match &x.node {
            ExprKind::Tuple(_) => self.expr_access(x),
            ExprKind::Dot(_, _, _) => self.expr_access(x),
            ExprKind::Call(_, _) => self.expr_access(x),
            ExprKind::Index(_) => self.expr_access(x),
            ExprKind::Slice(_, _, _, _) => self.expr_access(x),
            ExprKind::IfExpr(_) => self.expr_containers(x),
            ExprKind::ListExpr(_) => self.expr_containers(x),
            ExprKind::DictExpr(_) => self.expr_containers(x),
            ExprKind::ListComprehension(_, _, _) => self.expr_comprehensions(x),
            ExprKind::DictComprehension(_, _, _) => self.expr_comprehensions(x),
            _ => self.expr_other(x),
        }
    }

    /// The walk of the access-like expressions: displays of tuples,
    /// attribute accesses, calls, indexing and slicing.
    #[verifier::rlimit(100)]
    #[verifier::spinoff_prover]
    fn expr_access(&mut self, x: &Expr) -> (r: Ty)
        requires
            x.node is Tuple || x.node is Dot || x.node is Call || x.node is Index
                || x.node is Slice,
        ensures
            ({
                let out = ce(old(self).oracle, old(self).global_docs@, old(self).types@, x@);
                r@ == out.ty && walked(*old(self), *final(self), out)
            }),
        decreases *x, 2int,
    {
        let ghost pre = *self;
        let ghost out0 = ce(pre.oracle, pre.global_docs@, pre.types@, x@);
        let span = x.span;
        match &x.node {
            ExprKind::Tuple(xs) => {
                let tys = self.expr_list(xs);
                Ty::Tuple(tys)
            },
            ExprKind::Dot(a, n, nspan) => {
                let ta = self.expression_type(a);
                let ghost m1 = *self;
                let r = self.expression_attribute(&ta, TypingAttr::Regular(n.clone()), *nspan);
                proof {
                    let ao = ce(pre.oracle, pre.global_docs@, pre.types@, a@);
                    let at = expr_attr_v(pre.oracle, ao.ty, TypingAttrV::Regular(n@), *nspan);
                    lemma_walk2(pre, m1, *self, ao.errs, ao.approx, at.errs, at.approx);
                }
                r
            },
            ExprKind::Call(f, args) => {
                let cargs = self.expr_args(args);
                let ghost m1 = *self;
                let ft = self.expression_type(f);
                let ghost m2 = *self;
                let r = self.validate_call_ctx(&ft, &cargs, span);
                proof {
                    let ao = ce_args(pre.oracle, pre.global_docs@, pre.types@, crate::ast::args_view(args@));
                    let fo = ce(pre.oracle, pre.global_docs@, pre.types@, f@);
                    let vc = call_out_v(pre.oracle, span, fo.ty, ao.args);
                    lemma_walk2(pre, m1, m2, ao.errs, ao.approx, fo.errs, fo.approx);
                    lemma_walk2(pre, m2, *self, ao.errs + fo.errs, ao.approx + fo.approx, vc.errs, vc.approx);
                }
                r
            },
            ExprKind::Index(ab) => {
                let ta = self.expression_type(&ab.0);
                let ghost m1 = *self;
                let tb = self.expression_type(&ab.1);
                let ghost m2 = *self;
                let mut args: Vec<Ty> = Vec::new();
                let ghost tbv = tb@;
                args.push(tb);
                proof {
                    lemma_seq_views_of(args@);
                    assert(seq_views_of(args@) =~= seq![tbv]);
                }
                let r = self.expression_primitive_ty(TypingAttr::Index, ta, args, span);
                proof {
                    let oa = ce(pre.oracle, pre.global_docs@, pre.types@, ab.0@);
                    let ob = ce(pre.oracle, pre.global_docs@, pre.types@, ab.1@);
                    let pr = prim_ty_v(pre.oracle, TypingAttrV::Index, oa.ty, seq![ob.ty], span);
                    lemma_walk2(pre, m1, m2, oa.errs, oa.approx, ob.errs, ob.approx);
                    lemma_walk2(pre, m2, *self, oa.errs + ob.errs, oa.approx + ob.approx, pr.errs, pr.approx);
                }
                r
            },
            ExprKind::Slice(a, e1, e2, e3) => {
                self.slice_bound(e1);
                let ghost m1 = *self;
                self.slice_bound(e2);
                let ghost m2 = *self;
                self.slice_bound(e3);
                let ghost m3 = *self;
                let ta = self.expression_type(a);
                let ghost m4 = *self;
                let r = self.expression_attribute(&ta, TypingAttr::Slice, span);
                proof {
                    let o1 = ce_bound(pre.oracle, pre.global_docs@, pre.types@, crate::ast::opt_expr_view(*e1));
                    let o2 = ce_bound(pre.oracle, pre.global_docs@, pre.types@, crate::ast::opt_expr_view(*e2));
                    let o3 = ce_bound(pre.oracle, pre.global_docs@, pre.types@, crate::ast::opt_expr_view(*e3));
                    let oa = ce(pre.oracle, pre.global_docs@, pre.types@, a@);
                    let at = expr_attr_v(pre.oracle, oa.ty, TypingAttrV::Slice, span);
                    lemma_walk2(pre, m1, m2, o1.errs, o1.approx, o2.errs, o2.approx);
                    lemma_walk2(pre, m2, m3, o1.errs + o2.errs, o1.approx + o2.approx, o3.errs, o3.approx);
                    lemma_walk2(pre, m3, m4, o1.errs + o2.errs + o3.errs, o1.approx + o2.approx + o3.approx, oa.errs, oa.approx);
                    lemma_walk2(
                        pre,
                        m4,
                        *self,
                        o1.errs + o2.errs + o3.errs + oa.errs,
                        o1.approx + o2.approx + o3.approx + oa.approx,
                        at.errs,
                        at.approx,
                    );
                }
                r
            },
            _ => {
                proof {
                    assert(false);
                }
                Ty::Never
            },
        }
    }

    /// The walk of the scalar-like expressions: identifiers, literals,
    /// lambdas and operators.
    #[verifier::rlimit(100)]
    fn expr_other(&mut self, x: &Expr) -> (r: Ty)
        requires
            !(x.node is Tuple || x.node is Dot || x.node is Call || x.node is Index
                || x.node is Slice || x.node is IfExpr || x.node is ListExpr
                || x.node is DictExpr || x.node is ListComprehension
                || x.node is DictComprehension),
        ensures
            ({
                let out = ce(old(self).oracle, old(self).global_docs@, old(self).types@, x@);
                r@ == out.ty && walked(*old(self), *final(self), out)
            }),
        decreases *x, 2int,
    {
        let ghost pre = *self;
        let ghost out0 = ce(pre.oracle, pre.global_docs@, pre.types@, x@);
        let span = x.span;
        match &x.node {
            ExprKind::Identifier(id) => {
                match &id.resolved {
                    Option::Some(ResolvedIdent::Slot(b)) => {
                        proof {
                            lemma_walk0(pre, *self);
                        }
                        match self.types.lookup(*b) {
                            Option::Some(t) => t,
                            Option::None => Ty::Any,
                        }
                    },
                    Option::Some(ResolvedIdent::Global(g)) => {
                        match &g.declared_ty {
                            Option::Some(t) => {
                                proof {
                                    lemma_walk0(pre, *self);
                                }
                                clone_ty(t)
                            },
                            Option::None => self.builtin(id.name.as_str(), span),
                        }
                    },
                    Option::None => {
                        proof {
                            lemma_walk0(pre, *self);
                        }
                        Ty::Any
                    },
                }
            },
            ExprKind::Lambda => {
                let r = self.approximation("We don't type check lambdas", str_to_string("()"));
                proof {
                    assert(approxs_view(pre.approximations@).push(lambda_approx_v())
                        =~= approxs_view(pre.approximations@) + seq![lambda_approx_v()]);
                    assert(errs_view(self.errors@) =~= errs_view(pre.errors@)
                        + Seq::<TypingErrorV>::empty());
                }
                let f = Ty::name("function");
                proof {
                    reveal_strlit("function");
                    reveal_strlit("list");
                    reveal_strlit("dict");
                    crate::ty::lemma_chars_ne("function"@, "list"@);
                    crate::ty::lemma_chars_ne("function"@, "dict"@);
                }
                f
            },
            ExprKind::Literal(l) => {
                proof {
                    lemma_walk0(pre, *self);
                }
                match l {
                    Lit::Int => Ty::int_ty(),
                    Lit::Float => Ty::float(),
                    Lit::Str => Ty::string(),
                }
            },
            ExprKind::Not(a) => {
                let ta = self.expression_type(a);
                if ta.is_never() {
                    Ty::Never
                } else {
                    Ty::bool()
                }
            },
            ExprKind::Minus(a) => self.unop(TypingUnOp::Minus, a, span),
            ExprKind::Plus(a) => self.unop(TypingUnOp::Plus, a, span),
            ExprKind::BitNot(a) => self.unop(TypingUnOp::BitNot, a, span),
            ExprKind::Op(lhs, op, rhs) => {
                let lt = self.expression_type(lhs);
                let ghost m1 = *self;
                let rt = self.expression_type(rhs);
                let ghost m2 = *self;
                let r = self.binop_tail(*op, lt, rt, span);
                proof {
                    let lo = ce(pre.oracle, pre.global_docs@, pre.types@, lhs@);
                    let ro = ce(pre.oracle, pre.global_docs@, pre.types@, rhs@);
                    let tail = binop_tail_v(pre.oracle, *op, lo.ty, ro.ty, span);
                    lemma_walk2(pre, m1, m2, lo.errs, lo.approx, ro.errs, ro.approx);
                    lemma_walk2(pre, m2, *self, lo.errs + ro.errs, lo.approx + ro.approx, tail.errs, tail.approx);
                }
                r
            },
            _ => {
                proof {
                    assert(false);
                }
                Ty::Never
            },
        }
    }

    /// The walk of the container-like expressions: conditionals and
    /// displays of lists and dictionaries.
    #[verifier::rlimit(100)]
    #[verifier::spinoff_prover]
    fn expr_containers(&mut self, x: &Expr) -> (r: Ty)
        requires
            x.node is IfExpr || x.node is ListExpr || x.node is DictExpr,
        ensures
            ({
                let out = ce(old(self).oracle, old(self).global_docs@, old(self).types@, x@);
                r@ == out.ty && walked(*old(self), *final(self), out)
            }),
        decreases *x, 2int,
    {
        let ghost pre = *self;
        let ghost out0 = ce(pre.oracle, pre.global_docs@, pre.types@, x@);
        let span = x.span;
        match &x.node {
            ExprKind::IfExpr(ctf) => {
                let ct = self.expression_type(&ctf.0);
                let ghost m1 = *self;
                let tt = self.expression_type(&ctf.1);
                let ghost m2 = *self;
                let ft = self.expression_type(&ctf.2);
                proof {
                    let co = ce(pre.oracle, pre.global_docs@, pre.types@, ctf.0@);
                    let to = ce(pre.oracle, pre.global_docs@, pre.types@, ctf.1@);
                    let fo = ce(pre.oracle, pre.global_docs@, pre.types@, ctf.2@);
                    lemma_walk2(pre, m1, m2, co.errs, co.approx, to.errs, to.approx);
                    lemma_walk2(pre, m2, *self, co.errs + to.errs, co.approx + to.approx, fo.errs, fo.approx);
                }
                if ct.is_never() {
                    Ty::Never
                } else {
                    Ty::union2(tt, ft)
                }
            },
            ExprKind::ListExpr(xs) => {
                let tys = self.expr_list(xs);
                Ty::list(Ty::unions(tys))
            },
            ExprKind::DictExpr(kvs) => {
                let (ks, vs) = self.expr_pairs(kvs);
                Ty::dict(Ty::unions(ks), Ty::unions(vs))
            },
            _ => {
                proof {
                    assert(false);
                }
                Ty::Never
            },
        }
    }

    /// The walk of the comprehensions.
    #[verifier::rlimit(100)]
    #[verifier::spinoff_prover]
    fn expr_comprehensions(&mut self, x: &Expr) -> (r: Ty)
        requires
            x.node is ListComprehension || x.node is DictComprehension,
        ensures
            ({
                let out = ce(old(self).oracle, old(self).global_docs@, old(self).types@, x@);
                r@ == out.ty && walked(*old(self), *final(self), out)
            }),
        decreases *x, 2int,
    {
        let ghost pre = *self;
        let ghost out0 = ce(pre.oracle, pre.global_docs@, pre.types@, x@);
        let span = x.span;
        match &x.node {
            ExprKind::ListComprehension(a, f, cs) => {
                let _ = self.expression_type(&f.over);
                let ghost m1 = *self;
                self.walk_clauses(cs);
                let ghost m2 = *self;
                let ta = self.expression_type(a);
                proof {
                    crate::ast::lemma_for_clause_view(**f);
                    let fo = ce(pre.oracle, pre.global_docs@, pre.types@, f.over@);
                    let cl = ce_clauses_rest(
                        pre.oracle,
                        pre.global_docs@,
                        pre.types@,
                        crate::ast::clauses_view(cs@),
                    );
                    let ao = ce(pre.oracle, pre.global_docs@, pre.types@, a@);
                    lemma_walk2(pre, m1, m2, fo.errs, fo.approx, cl.errs, cl.approx);
                    lemma_walk2(pre, m2, *self, fo.errs + cl.errs, fo.approx + cl.approx, ao.errs, ao.approx);
                }
                Ty::list(ta)
            },
            ExprKind::DictComprehension(kv, f, cs) => {
                let _ = self.expression_type(&f.over);
                let ghost m1 = *self;
                self.walk_clauses(cs);
                let ghost m2 = *self;
                let kt = self.expression_type(&kv.0);
                let ghost m3 = *self;
                let vt = self.expression_type(&kv.1);
                proof {
                    crate::ast::lemma_for_clause_view(**f);
                    let fo = ce(pre.oracle, pre.global_docs@, pre.types@, f.over@);
                    let cl = ce_clauses_rest(
                        pre.oracle,
                        pre.global_docs@,
                        pre.types@,
                        crate::ast::clauses_view(cs@),
                    );
                    let ko = ce(pre.oracle, pre.global_docs@, pre.types@, kv.0@);
                    let vo = ce(pre.oracle, pre.global_docs@, pre.types@, kv.1@);
                    lemma_walk2(pre, m1, m2, fo.errs, fo.approx, cl.errs, cl.approx);
                    lemma_walk2(pre, m2, m3, fo.errs + cl.errs, fo.approx + cl.approx, ko.errs, ko.approx);
                    lemma_walk2(
                        pre,
                        m3,
                        *self,
                        fo.errs + cl.errs + ko.errs,
                        fo.approx + cl.approx + ko.approx,
                        vo.errs,
                        vo.approx,
                    );
                }
                Ty::dict(kt, vt)
            },
            _ => {
                proof {
                    assert(false);
                }
                Ty::Never
            },
        }
    }

    /// The walk of a unary operator dispatched through an attribute.
    fn unop(&mut self, op: TypingUnOp, a: &Expr, span: Span) -> (r: Ty)
        ensures
            ({
                let out = ce_unop(
                    old(self).oracle,
                    old(self).global_docs@,
                    old(self).types@,
                    op,
                    a@,
                    span,
                );
                r@ == out.ty && walked(*old(self), *final(self), out)
            }),
        decreases *a, 4int,
    {
        let ghost pre = *self;
        let ta = self.expression_type(a);
        let ghost m1 = *self;
        let args: Vec<Ty> = Vec::new();
        proof {
            assert(seq_views_of(args@) =~= Seq::<TyV>::empty());
        }
        let r = self.expression_primitive_ty(TypingAttr::UnOp(op), ta, args, span);
        proof {
            let ao = ce(pre.oracle, pre.global_docs@, pre.types@, a@);
            let pr = prim_ty_v(pre.oracle, TypingAttrV::UnOp(op), ao.ty, Seq::empty(), span);
            lemma_walk2(pre, m1, *self, ao.errs, ao.approx, pr.errs, pr.approx);
        }
        r
    }

    /// The operator dispatch of a binary expression, once the operand types
    /// are known.
    fn binop_tail(&mut self, op: BinOp, lt: Ty, rt: Ty, span: Span) -> (r: Ty)
        ensures
            ({
                let out = binop_tail_v(old(self).oracle, op, lt@, rt@, span);
                r@ == out.ty && walked(*old(self), *final(self), out)
            }),
    {
        let ghost pre = *self;
        let ghost ltv = lt@;
        let ghost rtv = rt@;
        let lnever = lt.is_never();
        let rnever = rt.is_never();
        match op {
            BinOp::And | BinOp::Or => {
                let r = if lnever {
                    Ty::Never
                } else {
                    Ty::union2(lt, rt)
                };
                r
            },
            BinOp::Equal | BinOp::NotEqual => {
                self.validate_type(&lt, &rt, span);
                if lnever || rnever {
                    Ty::Never
                } else {
                    Ty::bool()
                }
            },
            BinOp::In | BinOp::NotIn => {
                let mut args: Vec<Ty> = Vec::new();
                args.push(lt);
                proof {
                    lemma_seq_views_of(args@);
                    assert(seq_views_of(args@) =~= seq![ltv]);
                }
                let _ = self.expression_primitive_ty(
                    TypingAttr::BinOp(TypingBinOp::In),
                    rt,
                    args,
                    span,
                );
                if lnever || rnever {
                    Ty::Never
                } else {
                    Ty::bool()
                }
            },
            BinOp::Less | BinOp::LessOrEqual | BinOp::Greater | BinOp::GreaterOrEqual => {
                let mut args: Vec<Ty> = Vec::new();
                args.push(rt);
                proof {
                    lemma_seq_views_of(args@);
                    assert(seq_views_of(args@) =~= seq![rtv]);
                }
                let _ = self.expression_primitive_ty(
                    TypingAttr::BinOp(TypingBinOp::Less),
                    lt,
                    args,
                    span,
                );
                if lnever || rnever {
                    Ty::Never
                } else {
                    Ty::bool()
                }
            },
            _ => {
                let battr = match op {
                    BinOp::Subtract => TypingBinOp::Sub,
                    BinOp::Add => TypingBinOp::Add,
                    BinOp::Multiply => TypingBinOp::Mul,
                    BinOp::Percent => TypingBinOp::Percent,
                    BinOp::Divide => TypingBinOp::Div,
                    BinOp::FloorDivide => TypingBinOp::FloorDiv,
                    BinOp::BitAnd => TypingBinOp::BitAnd,
                    BinOp::BitOr => TypingBinOp::BitOr,
                    BinOp::BitXor => TypingBinOp::BitXor,
                    BinOp::LeftShift => TypingBinOp::LeftShift,
                    _ => TypingBinOp::RightShift,
                };
                let mut args: Vec<Ty> = Vec::new();
                args.push(rt);
                proof {
                    lemma_seq_views_of(args@);
                    assert(seq_views_of(args@) =~= seq![rtv]);
                }
                self.expression_primitive_ty(TypingAttr::BinOp(battr), lt, args, span)
            },
        }
    }

    /// The walk of an optional slice bound.
    fn slice_bound(&mut self, e: &Option<Box<Expr>>)
        ensures
            ({
                let out = ce_bound(
                    old(self).oracle,
                    old(self).global_docs@,
                    old(self).types@,
                    crate::ast::opt_expr_view(*e),
                );
                walked_d(*old(self), *final(self), out.errs, out.approx)
            }),
        decreases *e, 1int,
    {
        let ghost pre = *self;
        match e {
            Option::None => {
                proof {
                    lemma_walk0(pre, *self);
                }
            },
            Option::Some(b) => {
                let t = self.expression_type(b);
                let ghost mid = *self;
                let probe = Ty::int_ty();
                self.validate_type(&t, &probe, b.span);
                proof {
                    let out = ce(pre.oracle, pre.global_docs@, pre.types@, b@);
                    let tce = type_check_errs_v(pre.oracle, out.ty, TyV::Name("int"@), b.span);
                    lemma_walk2(pre, mid, *self, out.errs, out.approx, tce, Seq::empty());
                    assert(out.approx + Seq::<ApproximationV>::empty() =~= out.approx);
                }
            },
        }
    }

    /// The walk of a sequence of expressions, in order.
    fn expr_list(&mut self, xs: &Vec<Expr>) -> (tys: Vec<Ty>)
        ensures
            ({
                let out = ce_list(
                    old(self).oracle,
                    old(self).global_docs@,
                    old(self).types@,
                    crate::ast::exprs_view(xs@),
                );
                &&& seq_views_of(tys@) == out.tys
                &&& walked_d(*old(self), *final(self), out.errs, out.approx)
            }),
        decreases *xs, 1int,
    {
        let ghost pre = *self;
        let ghost xsv = crate::ast::exprs_view(xs@);
        proof {
            crate::ast::lemma_exprs_view(xs@);
            lemma_walk0(pre, *self);
        }
        let mut tys: Vec<Ty> = Vec::new();
        let mut i: usize = 0;
        while i < xs.len()
            invariant
                pre.oracle == self.oracle,
                pre.global_docs == self.global_docs,
                pre.types == self.types,
                xsv == crate::ast::exprs_view(xs@),
                xsv.len() == xs@.len(),
                i <= xs.len(),
                forall|j: int| 0 <= j < xs@.len() ==> #[trigger] xsv[j] == crate::ast::expr_view(
                    xs@[j],
                ),
                seq_views_of(tys@) =~= ce_list(
                    pre.oracle,
                    pre.global_docs@,
                    pre.types@,
                    xsv.take(i as int),
                ).tys,
                walked_d(
                    pre,
                    *self,
                    ce_list(pre.oracle, pre.global_docs@, pre.types@, xsv.take(i as int)).errs,
                    ce_list(pre.oracle, pre.global_docs@, pre.types@, xsv.take(i as int)).approx,
                ),
            decreases xs.len() - i,
        {
            let ghost m0 = *self;
            let t = self.expression_type(&xs[i]);
            proof {
                lemma_seq_views_of(tys@);
                lemma_seq_views_of(tys@.push(t));
                assert(seq_views_of(tys@.push(t)).drop_last() =~= seq_views_of(tys@));
                assert(xsv.take(i + 1).drop_last() =~= xsv.take(i as int));
                assert(xsv.take(i + 1).last() == xsv[i as int]);
                lemma_ce_list_unfold(pre.oracle, pre.global_docs@, pre.types@, xsv.take(i + 1));
                let front = ce_list(pre.oracle, pre.global_docs@, pre.types@, xsv.take(i as int));
                let out = ce(pre.oracle, pre.global_docs@, pre.types@, xsv[i as int]);
                lemma_walk2(pre, m0, *self, front.errs, front.approx, out.errs, out.approx);
            }
            tys.push(t);
            i = i + 1;
        }
        proof {
            assert(xsv.take(xs@.len() as int) =~= xsv);
        }
        tys
    }

    /// The walk of the pairs of a dictionary display, each key then its
    /// value.
    fn expr_pairs(&mut self, kvs: &Vec<(Expr, Expr)>) -> (r: (Vec<Ty>, Vec<Ty>))
        ensures
            ({
                let out = ce_pairs(
                    old(self).oracle,
                    old(self).global_docs@,
                    old(self).types@,
                    crate::ast::expr_pairs_view(kvs@),
                );
                &&& seq_views_of(r.0@) == out.keys
                &&& seq_views_of(r.1@) == out.vals
                &&& walked_d(*old(self), *final(self), out.errs, out.approx)
            }),
        decreases *kvs, 1int,
    {
        let ghost pre = *self;
        let ghost kvsv = crate::ast::expr_pairs_view(kvs@);
        proof {
            crate::ast::lemma_expr_pairs_view(kvs@);
            lemma_walk0(pre, *self);
        }
        let mut ks: Vec<Ty> = Vec::new();
        let mut vs: Vec<Ty> = Vec::new();
        let mut i: usize = 0;
        while i < kvs.len()
            invariant
                pre.oracle == self.oracle,
                pre.global_docs == self.global_docs,
                pre.types == self.types,
                kvsv == crate::ast::expr_pairs_view(kvs@),
                kvsv.len() == kvs@.len(),
                i <= kvs.len(),
                forall|j: int| 0 <= j < kvs@.len() ==> #[trigger] kvsv[j] == (
                    crate::ast::expr_view(kvs@[j].0),
                    crate::ast::expr_view(kvs@[j].1),
                ),
                seq_views_of(ks@) =~= ce_pairs(
                    pre.oracle,
                    pre.global_docs@,
                    pre.types@,
                    kvsv.take(i as int),
                ).keys,
                seq_views_of(vs@) =~= ce_pairs(
                    pre.oracle,
                    pre.global_docs@,
                    pre.types@,
                    kvsv.take(i as int),
                ).vals,
                walked_d(
                    pre,
                    *self,
                    ce_pairs(pre.oracle, pre.global_docs@, pre.types@, kvsv.take(i as int)).errs,
                    ce_pairs(
                        pre.oracle,
                        pre.global_docs@,
                        pre.types@,
                        kvsv.take(i as int),
                    ).approx,
                ),
            decreases kvs.len() - i,
        {
            let ghost m0 = *self;
            let kt = self.expression_type(&kvs[i].0);
            let ghost m1 = *self;
            let vt = self.expression_type(&kvs[i].1);
            proof {
                lemma_seq_views_of(ks@);
                lemma_seq_views_of(ks@.push(kt));
                assert(seq_views_of(ks@.push(kt)).drop_last() =~= seq_views_of(ks@));
                lemma_seq_views_of(vs@);
                lemma_seq_views_of(vs@.push(vt));
                assert(seq_views_of(vs@.push(vt)).drop_last() =~= seq_views_of(vs@));
                assert(kvsv.take(i + 1).drop_last() =~= kvsv.take(i as int));
                assert(kvsv.take(i + 1).last() == kvsv[i as int]);
                lemma_ce_pairs_unfold(pre.oracle, pre.global_docs@, pre.types@, kvsv.take(i + 1));
                let front = ce_pairs(
                    pre.oracle,
                    pre.global_docs@,
                    pre.types@,
                    kvsv.take(i as int),
                );
                let ko = ce(pre.oracle, pre.global_docs@, pre.types@, kvsv[i as int].0);
                let vo = ce(pre.oracle, pre.global_docs@, pre.types@, kvsv[i as int].1);
                lemma_walk2(pre, m0, m1, front.errs, front.approx, ko.errs, ko.approx);
                lemma_walk2(
                    pre,
                    m1,
                    *self,
                    front.errs + ko.errs,
                    front.approx + ko.approx,
                    vo.errs,
                    vo.approx,
                );
            }
            ks.push(kt);
            vs.push(vt);
            i = i + 1;
        }
        proof {
            assert(kvsv.take(kvs@.len() as int) =~= kvsv);
        }
        (ks, vs)
    }

    /// The walk of the arguments of a call, in order.
    fn expr_args(&mut self, args: &Vec<Argument>) -> (r: Vec<Arg>)
        ensures
            ({
                let out = ce_args(
                    old(self).oracle,
                    old(self).global_docs@,
                    old(self).types@,
                    crate::ast::args_view(args@),
                );
                &&& crate::oracle::call_args_view(r@) == out.args
                &&& walked_d(*old(self), *final(self), out.errs, out.approx)
            }),
        decreases *args, 1int,
    {
        let ghost pre = *self;
        let ghost argsv = crate::ast::args_view(args@);
        proof {
            crate::ast::lemma_args_view(args@);
            lemma_walk0(pre, *self);
        }
        let mut r: Vec<Arg> = Vec::new();
        let mut i: usize = 0;
        while i < args.len()
            invariant
                pre.oracle == self.oracle,
                pre.global_docs == self.global_docs,
                pre.types == self.types,
                argsv == crate::ast::args_view(args@),
                argsv.len() == args@.len(),
                i <= args.len(),
                forall|j: int| 0 <= j < args@.len() ==> #[trigger] argsv[j]
                    == crate::ast::arg_view(args@[j]),
                crate::oracle::call_args_view(r@) =~= ce_args(
                    pre.oracle,
                    pre.global_docs@,
                    pre.types@,
                    argsv.take(i as int),
                ).args,
                walked_d(
                    pre,
                    *self,
                    ce_args(pre.oracle, pre.global_docs@, pre.types@, argsv.take(i as int)).errs,
                    ce_args(
                        pre.oracle,
                        pre.global_docs@,
                        pre.types@,
                        argsv.take(i as int),
                    ).approx,
                ),
            decreases args.len() - i,
        {
            let ghost m0 = *self;
            let one: Arg = self.walk_one_arg(&args[i]);
            proof {
                crate::oracle::lemma_call_args_view(r@);
                crate::oracle::lemma_call_args_view(r@.push(one));
                assert(r@.push(one).drop_last() =~= r@);
                assert(crate::oracle::call_args_view(r@.push(one)).drop_last()
                    =~= crate::oracle::call_args_view(r@));
                assert(argsv.take(i + 1).drop_last() =~= argsv.take(i as int));
                assert(argsv.take(i + 1).last() == argsv[i as int]);
                lemma_ce_args_unfold(pre.oracle, pre.global_docs@, pre.types@, argsv.take(i + 1));
                let front = ce_args(
                    pre.oracle,
                    pre.global_docs@,
                    pre.types@,
                    argsv.take(i as int),
                );
                let out = ce_args_one(pre.oracle, pre.global_docs@, pre.types@, argsv[i as int]);
                lemma_walk2(pre, m0, *self, front.errs, front.approx, out.1.errs, out.1.approx);
            }
            r.push(one);
            i = i + 1;
        }
        proof {
            assert(argsv.take(args@.len() as int) =~= argsv);
        }
        r
    }

    /// The walk of one argument of a call.
    fn walk_one_arg(&mut self, a: &Argument) -> (one: Arg)
        ensures
            ({
                let out = ce_args_one(
                    old(self).oracle,
                    old(self).global_docs@,
                    old(self).types@,
                    crate::ast::arg_view(*a),
                );
                &&& one@ == out.0
                &&& walked_d(*old(self), *final(self), out.1.errs, out.1.approx)
            }),
        decreases *a, 2int,
    {
        let ghost pre = *self;
        proof {
            lemma_ce_args_one_unfold(
                pre.oracle,
                pre.global_docs@,
                pre.types@,
                crate::ast::arg_view(*a),
            );
        }
        match a {
            Argument::Positional(e) => {
                let t = self.expression_type(e);
                Arg::Pos(t)
            },
            Argument::Named(n, e) => {
                let t = self.expression_type(e);
                Arg::Name(n.clone(), t)
            },
            Argument::Args(e) => {
                let t = self.expression_type(e);
                let ghost m1 = *self;
                let _ = self.from_iterated(&t, e.span);
                proof {
                    let out = ce(pre.oracle, pre.global_docs@, pre.types@, e@);
                    let it = expr_attr_v(pre.oracle, out.ty, TypingAttrV::Iter, e.span);
                    lemma_walk2(pre, m1, *self, out.errs, out.approx, it.errs, it.approx);
                }
                Arg::Args(t)
            },
            Argument::KwArgs(e) => {
                let t = self.expression_type(e);
                let ghost m1 = *self;
                let probe = Ty::dict(Ty::string(), Ty::Any);
                self.validate_type(&t, &probe, e.span);
                proof {
                    let out = ce(pre.oracle, pre.global_docs@, pre.types@, e@);
                    let tce = type_check_errs_v(
                        pre.oracle,
                        out.ty,
                        TyV::Dict(Box::new(TyV::Name("string"@)), Box::new(TyV::Any)),
                        e.span,
                    );
                    lemma_walk2(pre, m1, *self, out.errs, out.approx, tce, Seq::empty());
                    assert(out.approx + Seq::<ApproximationV>::empty() =~= out.approx);
                }
                Arg::Kwargs(t)
            },
        }
    }

    /// The walk of the trailing clauses of a comprehension, purely for
    /// diagnostics.
    fn walk_clauses(&mut self, cs: &Vec<Clause>)
        ensures
            ({
                let out = ce_clauses_rest(
                    old(self).oracle,
                    old(self).global_docs@,
                    old(self).types@,
                    crate::ast::clauses_view(cs@),
                );
                walked_d(*old(self), *final(self), out.errs, out.approx)
            }),
        decreases *cs, 1int,
    {
        let ghost pre = *self;
        let ghost csv = crate::ast::clauses_view(cs@);
        proof {
            crate::ast::lemma_clauses_view(cs@);
            lemma_walk0(pre, *self);
        }
        let mut i: usize = 0;
        while i < cs.len()
            invariant
                pre.oracle == self.oracle,
                pre.global_docs == self.global_docs,
                pre.types == self.types,
                csv == crate::ast::clauses_view(cs@),
                csv.len() == cs@.len(),
                i <= cs.len(),
                forall|j: int| 0 <= j < cs@.len() ==> #[trigger] csv[j]
                    == crate::ast::clause_view(cs@[j]),
                walked_d(
                    pre,
                    *self,
                    ce_clauses_rest(
                        pre.oracle,
                        pre.global_docs@,
                        pre.types@,
                        csv.take(i as int),
                    ).errs,
                    ce_clauses_rest(
                        pre.oracle,
                        pre.global_docs@,
                        pre.types@,
                        csv.take(i as int),
                    ).approx,
                ),
            decreases cs.len() - i,
        {
            let ghost m0 = *self;
            match &cs[i] {
                Clause::For(fc) => {
                    let _ = self.expression_type(&fc.over);
                },
                Clause::If(e) => {
                    let _ = self.expression_type(e);
                },
            }
            proof {
                assert(csv.take(i + 1).drop_last() =~= csv.take(i as int));
                assert(csv.take(i + 1).last() == csv[i as int]);
                lemma_ce_clauses_unfold(pre.oracle, pre.global_docs@, pre.types@, csv.take(i + 1));
                let front = ce_clauses_rest(
                    pre.oracle,
                    pre.global_docs@,
                    pre.types@,
                    csv.take(i as int),
                );
                let out = match csv[i as int] {
                    ClauseV::For(fc) => ce(pre.oracle, pre.global_docs@, pre.types@, fc.over),
                    ClauseV::If(e) => ce(pre.oracle, pre.global_docs@, pre.types@, *e),
                };
                lemma_walk2(pre, m0, *self, front.errs, front.approx, out.errs, out.approx);
            }
            i = i + 1;
        }
        proof {
            assert(csv.take(cs@.len() as int) =~= csv);
        }
    }

}


impl<O: TypingOracle> TypingContext<O> {
    /// The type of an assignment-target-derived expression: a plain
    /// expression, an indexed get, a for-loop iteration variable, an
    /// augmented assignment, an indexed set, or a list append or extend.
    /// An indexed set only refines known list and dictionary alternatives;
    /// anything else is silently skipped.
    pub fn expression_bind_type(&mut self, x: &BindExpr) -> (r: Ty)
        ensures
            ({
                let out = cb(old(self).oracle, old(self).global_docs@, old(self).types@, x@);
                r@ == out.ty && walked(*old(self), *final(self), out)
            }),
        decreases *x, 5int,
    {
        let ghost pre = *self;
        match x {
            BindExpr::Expr(e) => self.expression_type(e),
            BindExpr::GetIndex(i, b) => {
                let t = self.expression_bind_type(b);
                t.indexed(*i)
            },
            BindExpr::Iter(b) => {
                let t = self.expression_bind_type(b);
                let ghost m1 = *self;
                let span = bind_span(b);
                let r = self.expression_attribute(&t, TypingAttr::Iter, span);
                proof {
                    let out = cb(pre.oracle, pre.global_docs@, pre.types@, b@);
                    let at = expr_attr_v(pre.oracle, out.ty, TypingAttrV::Iter, bind_span_v(b@));
                    lemma_walk2(pre, m1, *self, out.errs, out.approx, at.errs, at.approx);
                }
                r
            },
            BindExpr::AssignOp(a, op, rhs) => {
                let span = a.span;
                let rt = self.expression_type(rhs);
                let ghost m1 = *self;
                let lt = self.expression_assign(a);
                let ghost m2 = *self;
                let battr = match op {
                    AssignOp::Add => TypingBinOp::Add,
                    AssignOp::Subtract => TypingBinOp::Sub,
                    AssignOp::Multiply => TypingBinOp::Mul,
                    AssignOp::Divide => TypingBinOp::Div,
                    AssignOp::FloorDivide => TypingBinOp::FloorDiv,
                    AssignOp::Percent => TypingBinOp::Percent,
                    AssignOp::BitAnd => TypingBinOp::BitAnd,
                    AssignOp::BitOr => TypingBinOp::BitOr,
                    AssignOp::BitXor => TypingBinOp::BitXor,
                    AssignOp::LeftShift => TypingBinOp::LeftShift,
                    AssignOp::RightShift => TypingBinOp::RightShift,
                };
                let mut args: Vec<Ty> = Vec::new();
                let ghost rtv = rt@;
                args.push(rt);
                proof {
                    lemma_seq_views_of(args@);
                    assert(seq_views_of(args@) =~= seq![rtv]);
                }
                let r = self.expression_primitive_ty(TypingAttr::BinOp(battr), lt, args, span);
                proof {
                    let ro = ce(pre.oracle, pre.global_docs@, pre.types@, rhs@);
                    let lo = ca(pre.oracle, pre.global_docs@, pre.types@, a@);
                    let pr = prim_ty_v(
                        pre.oracle,
                        TypingAttrV::BinOp(assign_attr_v(*op)),
                        lo.ty,
                        seq![ro.ty],
                        span,
                    );
                    lemma_walk2(pre, m1, m2, ro.errs, ro.approx, lo.errs, lo.approx);
                    lemma_walk2(
                        pre,
                        m2,
                        *self,
                        ro.errs + lo.errs,
                        ro.approx + lo.approx,
                        pr.errs,
                        pr.approx,
                    );
                }
                r
            },
            BindExpr::SetIndex(id, index, e) => {
                let span = index.span;
                let it = self.expression_type(index);
                let ghost m1 = *self;
                let ebt = self.expression_bind_type(e);
                let ghost m2 = *self;
                let cur = match self.types.lookup(*id) {
                    Option::Some(t) => t,
                    Option::None => Ty::Any,
                };
                if cur.is_list() {
                    let probe = Ty::int_ty();
                    self.validate_type(&it, &probe, span);
                } else {
                    proof {
                        lemma_walk0(m2, *self);
                    }
                }
                let ghost itv = it@;
                let ghost ebtv = ebt@;
                let alts = cur.iter_union();
                let ghost altsv = seq_views_of(alts@);
                proof {
                    lemma_seq_views_of(alts@);
                }
                let mut res: Vec<Ty> = Vec::new();
                let mut i: usize = 0;
                while i < alts.len()
                    invariant
                        altsv == seq_views_of(alts@),
                        altsv.len() == alts@.len(),
                        i <= alts.len(),
                        itv == it@,
                        ebtv == ebt@,
                        forall|j: int| 0 <= j < alts@.len() ==> #[trigger] altsv[j] == ty_view(
                            alts@[j],
                        ),
                        seq_views_of(res@) =~= set_index_alts_v(
                            altsv.take(i as int),
                            itv,
                            ebtv,
                        ),
                    decreases alts.len() - i,
                {
                    proof {
                        assert(altsv.take(i + 1).drop_last() =~= altsv.take(i as int));
                        assert(altsv.take(i + 1).last() == altsv[i as int]);
                    }
                    match &alts[i] {
                        Ty::List(_) => {
                            let m = Ty::list(clone_ty(&ebt));
                            proof {
                                lemma_seq_views_of(res@);
                                lemma_seq_views_of(res@.push(m));
                                assert(seq_views_of(res@.push(m)).drop_last() =~= seq_views_of(
                                    res@,
                                ));
                            }
                            res.push(m);
                        },
                        Ty::Dict(_) => {
                            let m = Ty::dict(clone_ty(&it), clone_ty(&ebt));
                            proof {
                                lemma_seq_views_of(res@);
                                lemma_seq_views_of(res@.push(m));
                                assert(seq_views_of(res@.push(m)).drop_last() =~= seq_views_of(
                                    res@,
                                ));
                            }
                            res.push(m);
                        },
                        _ => {},
                    }
                    i = i + 1;
                    proof {
                        assert(seq_views_of(res@) =~= set_index_alts_v(
                            altsv.take(i as int),
                            itv,
                            ebtv,
                        ));
                    }
                }
                proof {
                    assert(altsv.take(alts@.len() as int) =~= altsv);
                }
                let r = Ty::unions(res);
                proof {
                    let io = ce(pre.oracle, pre.global_docs@, pre.types@, index@);
                    let eo = cb(pre.oracle, pre.global_docs@, pre.types@, e@);
                    let curv = match bind_lookup_v(pre.types@, id.0) {
                        Option::Some(t) => t,
                        Option::None => TyV::Any,
                    };
                    let tcerrs: Seq<TypingErrorV> = if curv is List {
                        type_check_errs_v(pre.oracle, io.ty, TyV::Name("int"@), span)
                    } else {
                        Seq::empty()
                    };
                    lemma_walk2(pre, m1, m2, io.errs, io.approx, eo.errs, eo.approx);
                    lemma_walk2(
                        pre,
                        m2,
                        *self,
                        io.errs + eo.errs,
                        io.approx + eo.approx,
                        tcerrs,
                        Seq::empty(),
                    );
                    assert(io.approx + eo.approx + Seq::<ApproximationV>::empty() =~= io.approx
                        + eo.approx);
                }
                r
            },
            BindExpr::ListAppend(id, e) => {
                let cur = match self.types.lookup(*id) {
                    Option::Some(t) => t,
                    Option::None => Ty::Any,
                };
                if cur.probably_a_list(&self.oracle) {
                    let t = self.expression_type(e);
                    Ty::list(t)
                } else {
                    proof {
                        lemma_walk0(pre, *self);
                    }
                    Ty::Never
                }
            },
            BindExpr::ListExtend(id, e) => {
                let cur = match self.types.lookup(*id) {
                    Option::Some(t) => t,
                    Option::None => Ty::Any,
                };
                if cur.probably_a_list(&self.oracle) {
                    let t = self.expression_type(e);
                    let ghost m1 = *self;
                    let r = self.expression_attribute(&t, TypingAttr::Iter, e.span);
                    proof {
                        let eo = ce(pre.oracle, pre.global_docs@, pre.types@, e@);
                        let at = expr_attr_v(pre.oracle, eo.ty, TypingAttrV::Iter, e.span);
                        lemma_walk2(pre, m1, *self, eo.errs, eo.approx, at.errs, at.approx);
                    }
                    Ty::list(r)
                } else {
                    proof {
                        lemma_walk0(pre, *self);
                    }
                    Ty::Never
                }
            },
        }
    }

    /// The type of an expression used as an assignment target: a plain
    /// identifier takes its environment type, an indexed target dispatches
    /// the indexing protocol, and tuple or attribute targets degrade to
    /// `Any` with an approximation.
    pub fn expression_assign(&mut self, x: &Assign) -> (r: Ty)
        ensures
            ({
                let out = ca(old(self).oracle, old(self).global_docs@, old(self).types@, x@);
                r@ == out.ty && walked(*old(self), *final(self), out)
            }),
        decreases *x, 5int,
    {
        let ghost pre = *self;
        match &x.node {
            AssignTarget::Tuple(_) => {
                let r = self.approximation(
                    "expression_assignment",
                    str_to_string("tuple target"),
                );
                proof {
                    assert(approxs_view(pre.approximations@).push(assign_approx_v(
                        "tuple target"@,
                    )) =~= approxs_view(pre.approximations@) + seq![
                        assign_approx_v("tuple target"@),
                    ]);
                    assert(errs_view(self.errors@) =~= errs_view(pre.errors@)
                        + Seq::<TypingErrorV>::empty());
                }
                r
            },
            AssignTarget::Index(ab) => {
                let ta = self.expression_type(&ab.0);
                let ghost m1 = *self;
                let tb = self.expression_type(&ab.1);
                let ghost m2 = *self;
                let mut args: Vec<Ty> = Vec::new();
                let ghost tbv = tb@;
                args.push(tb);
                proof {
                    lemma_seq_views_of(args@);
                    assert(seq_views_of(args@) =~= seq![tbv]);
                }
                let r = self.expression_primitive_ty(TypingAttr::Index, ta, args, x.span);
                proof {
                    let oa = ce(pre.oracle, pre.global_docs@, pre.types@, ab.0@);
                    let ob = ce(pre.oracle, pre.global_docs@, pre.types@, ab.1@);
                    let pr = prim_ty_v(
                        pre.oracle,
                        TypingAttrV::Index,
                        oa.ty,
                        seq![ob.ty],
                        x.span,
                    );
                    lemma_walk2(pre, m1, m2, oa.errs, oa.approx, ob.errs, ob.approx);
                    lemma_walk2(
                        pre,
                        m2,
                        *self,
                        oa.errs + ob.errs,
                        oa.approx + ob.approx,
                        pr.errs,
                        pr.approx,
                    );
                }
                r
            },
            AssignTarget::Dot(_, _) => {
                let r = self.approximation(
                    "expression_assignment",
                    str_to_string("attribute target"),
                );
                proof {
                    assert(approxs_view(pre.approximations@).push(assign_approx_v(
                        "attribute target"@,
                    )) =~= approxs_view(pre.approximations@) + seq![
                        assign_approx_v("attribute target"@),
                    ]);
                    assert(errs_view(self.errors@) =~= errs_view(pre.errors@)
                        + Seq::<TypingErrorV>::empty());
                }
                r
            },
            AssignTarget::Identifier(_, ob) => {
                proof {
                    lemma_walk0(pre, *self);
                }
                match ob {
                    Option::Some(id) => {
                        match self.types.lookup(*id) {
                            Option::Some(t) => t,
                            Option::None => Ty::Any,
                        }
                    },
                    Option::None => Ty::Any,
                }
            },
        }
    }
}

/// The span a bind expression points at.
fn bind_span(b: &BindExpr) -> (r: Span)
    ensures
        r == bind_span_v(b@),
    decreases *b,
{
    match b {
        BindExpr::Expr(e) => e.span,
        BindExpr::GetIndex(_, b2) => bind_span(b2),
        BindExpr::Iter(b2) => bind_span(b2),
        BindExpr::AssignOp(a, _, _) => a.span,
        BindExpr::SetIndex(_, e, _) => e.span,
        BindExpr::ListAppend(_, e) => e.span,
        BindExpr::ListExtend(_, e) => e.span,
    }
}

} // verus!
