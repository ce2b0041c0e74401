//! Conversion of a static type-expression tree into a [`Ty`].
//!
//! The parser unpacks an annotation expression (`"int"`, `[str.type]`,
//! `dict[str, int]`, a global naming a type) into this tree; globals are
//! resolved by the outside evaluator, which hands over either the builtin
//! list or dictionary constructors, the type a global value publishes, or
//! nothing.  Shapes the checker does not model degrade to `Any` with an
//! approximation, never an error.

use vstd::prelude::*;
use crate::ast::Span;
use crate::strings::{str_eq, str_to_string};
use crate::ty::{
    lemma_seq_views_of, name_v, seq_views_of, ty_view, Approximation, ApproximationV, Ty, TyV,
};
use crate::union::unions_v;

verus! {

/// An unpacked type expression, with its span.
#[derive(Debug)]
pub struct TypeExprU {
    pub span: Span,
    pub node: TypeExprNode,
}

/// A node of an unpacked type expression.
#[derive(Debug)]
pub enum TypeExprNode {
    /// A tuple of annotations: a fixed-arity tuple type.
    TupleT(Vec<TypeExprU>),
    /// A list of annotations: any of the alternatives.
    AnyOfT(Vec<TypeExprU>),
    /// `[t]`: a list of `t`.
    ListOfT(Box<TypeExprU>),
    /// `{k: v}`: a dictionary type.
    DictOfT(Box<(TypeExprU, TypeExprU)>),
    /// A string literal naming a type; empty or underscore-led is a
    /// wildcard.
    LiteralT(String),
    /// A possibly dotted path starting at a global.
    PathT(TypeGlobal, Vec<String>),
    /// `g[t]`, meaningful when `g` is the list constructor.
    IndexT(TypeGlobal, Box<TypeExprU>),
    /// `g[k, v]`, meaningful when `g` is the dictionary constructor.
    Index2T(TypeGlobal, Box<(TypeExprU, TypeExprU)>),
}

/// A global a type expression starts at, with what its resolution denotes.
#[derive(Debug)]
pub struct TypeGlobal {
    pub name: String,
    pub resolved: Option<GlobalTypeValue>,
}

/// What a resolved global denotes as a type constructor.
#[derive(Debug)]
pub enum GlobalTypeValue {
    /// The builtin list constructor.
    ListBuiltin,
    /// The builtin dictionary constructor.
    DictBuiltin,
    /// A value that publishes the type written here.
    TypeValue(Ty),
    /// A value the checker cannot read a type from.
    OpaqueGlobal,
}

/// The model of an unpacked type expression.
#[verifier::ext_equal]
pub struct TypeExprUV {
    pub span: Span,
    pub node: TypeExprNodeV,
}

/// The model of a type-expression node.
#[verifier::ext_equal]
pub enum TypeExprNodeV {
    TupleT(Seq<TypeExprUV>),
    AnyOfT(Seq<TypeExprUV>),
    ListOfT(Box<TypeExprUV>),
    DictOfT(Box<TypeExprUV>, Box<TypeExprUV>),
    LiteralT(Seq<char>),
    PathT(TypeGlobalV, Seq<Seq<char>>),
    IndexT(TypeGlobalV, Box<TypeExprUV>),
    Index2T(TypeGlobalV, Box<TypeExprUV>, Box<TypeExprUV>),
}

/// The model of a type-expression global.
#[verifier::ext_equal]
pub struct TypeGlobalV {
    pub name: Seq<char>,
    pub resolved: Option<GlobalTypeValueV>,
}

/// The model of what a resolved global denotes.
#[verifier::ext_equal]
pub enum GlobalTypeValueV {
    ListBuiltin,
    DictBuiltin,
    TypeValue(TyV),
    OpaqueGlobal,
}

impl View for TypeExprU {
    type V = TypeExprUV;

    open(crate) spec fn view(&self) -> TypeExprUV {
        te_view(*self)
    }
}

/// The model of a type expression.
pub open(crate) spec fn te_view(x: TypeExprU) -> TypeExprUV
    decreases x,
{
    TypeExprUV { span: x.span, node: te_node_view(x.node) }
}

/// The model of a type-expression node.
pub open(crate) spec fn te_node_view(x: TypeExprNode) -> TypeExprNodeV
    decreases x,
{
    match x {
        TypeExprNode::TupleT(xs) => TypeExprNodeV::TupleT(te_seq_view(xs@)),
        TypeExprNode::AnyOfT(xs) => TypeExprNodeV::AnyOfT(te_seq_view(xs@)),
        TypeExprNode::ListOfT(b) => TypeExprNodeV::ListOfT(Box::new(te_view(*b))),
        TypeExprNode::DictOfT(kv) => TypeExprNodeV::DictOfT(
            Box::new(te_view(kv.0)),
            Box::new(te_view(kv.1)),
        ),
        TypeExprNode::LiteralT(s) => TypeExprNodeV::LiteralT(s@),
        TypeExprNode::PathT(g, rem) => TypeExprNodeV::PathT(tg_view(g), names_seq_view(rem@)),
        TypeExprNode::IndexT(g, b) => TypeExprNodeV::IndexT(tg_view(g), Box::new(te_view(*b))),
        TypeExprNode::Index2T(g, kv) => TypeExprNodeV::Index2T(
            tg_view(g),
            Box::new(te_view(kv.0)),
            Box::new(te_view(kv.1)),
        ),
    }
}

/// The models of the elements of a vector of type expressions.
pub open(crate) spec fn te_seq_view(xs: Seq<TypeExprU>) -> Seq<TypeExprUV>
    decreases xs,
{
    if xs.len() == 0 {
        Seq::empty()
    } else {
        te_seq_view(xs.drop_last()).push(te_view(xs.last()))
    }
}

/// The models of a vector of path components.
pub open(crate) spec fn names_seq_view(ns: Seq<String>) -> Seq<Seq<char>>
    decreases ns,
{
    if ns.len() == 0 {
        Seq::empty()
    } else {
        names_seq_view(ns.drop_last()).push(ns.last()@)
    }
}

/// The model of a type-expression global.
pub open(crate) spec fn tg_view(g: TypeGlobal) -> TypeGlobalV
    decreases g,
{
    TypeGlobalV {
        name: g.name@,
        resolved: match g.resolved {
            Option::None => Option::None,
            Option::Some(GlobalTypeValue::ListBuiltin) => Option::Some(
                GlobalTypeValueV::ListBuiltin,
            ),
            Option::Some(GlobalTypeValue::DictBuiltin) => Option::Some(
                GlobalTypeValueV::DictBuiltin,
            ),
            Option::Some(GlobalTypeValue::TypeValue(t)) => Option::Some(
                GlobalTypeValueV::TypeValue(ty_view(t)),
            ),
            Option::Some(GlobalTypeValue::OpaqueGlobal) => Option::Some(
                GlobalTypeValueV::OpaqueGlobal,
            ),
        },
    }
}

/// `names_seq_view` maps the view over the elements.
pub broadcast proof fn lemma_names_seq_view(ns: Seq<String>)
    ensures
        #[trigger] names_seq_view(ns).len() == ns.len(),
        forall|i: int| 0 <= i < ns.len() ==> names_seq_view(ns)[i] == ns[i]@,
    decreases ns.len(),
{
    if ns.len() > 0 {
        lemma_names_seq_view(ns.drop_last());
    }
}

/// `te_seq_view` maps the view over the elements.
pub broadcast proof fn lemma_te_seq_view(xs: Seq<TypeExprU>)
    ensures
        #[trigger] te_seq_view(xs).len() == xs.len(),
        forall|i: int| 0 <= i < xs.len() ==> te_seq_view(xs)[i] == te_view(xs[i]),
    decreases xs.len(),
{
    if xs.len() > 0 {
        lemma_te_seq_view(xs.drop_last());
    }
}

/// What converting a type expression produces: the type, and the
/// approximations recorded for the shapes the checker does not model.
#[verifier::ext_equal]
pub struct FromTyV {
    pub ty: TyV,
    pub approx: Seq<ApproximationV>,
}

/// The approximation recorded for an unmodelled type expression, naming
/// the global or construct that could not be read.
pub open spec fn unknown_ty_approx_v(what: Seq<char>) -> ApproximationV {
    ApproximationV { category: "Unknown type"@, message: what }
}

/// The type a type expression denotes.  A literal goes through
/// [`crate::ty::Ty::name`]'s mapping, with the empty and underscore-led
/// wildcards as `Any`; `g.type` names the type of the global `g` (with
/// `str` spelled `string`); the builtin list and dictionary constructors
/// give the structural types; a global that publishes a type gives it; and
/// anything else degrades to `Any` with an approximation.
pub open spec fn from_type_expr_v(x: TypeExprUV) -> FromTyV
    decreases x, 1int,
{
    match x.node {
        TypeExprNodeV::TupleT(xs) => {
            let out = from_seq_v(xs);
            FromTyV { ty: TyV::Tuple(out.tys), approx: out.approx }
        },
        TypeExprNodeV::AnyOfT(xs) => {
            let out = from_seq_v(xs);
            FromTyV { ty: unions_v(out.tys), approx: out.approx }
        },
        TypeExprNodeV::ListOfT(b) => {
            let out = from_type_expr_v(*b);
            FromTyV { ty: TyV::List(Box::new(out.ty)), approx: out.approx }
        },
        TypeExprNodeV::DictOfT(k, v) => {
            let ko = from_type_expr_v(*k);
            let vo = from_type_expr_v(*v);
            FromTyV {
                ty: TyV::Dict(Box::new(ko.ty), Box::new(vo.ty)),
                approx: ko.approx + vo.approx,
            }
        },
        TypeExprNodeV::LiteralT(s) => FromTyV {
            ty: if s.len() == 0 || s[0] == '_' {
                TyV::Any
            } else {
                name_v(s)
            },
            approx: Seq::empty(),
        },
        TypeExprNodeV::PathT(g, rem) => {
            if rem.len() == 0 {
                match g.resolved {
                    Option::Some(GlobalTypeValueV::TypeValue(t)) => FromTyV {
                        ty: t,
                        approx: Seq::empty(),
                    },
                    _ => FromTyV { ty: TyV::Any, approx: seq![unknown_ty_approx_v(g.name)] },
                }
            } else if rem.len() == 1 && rem[0] == "type"@ {
                FromTyV {
                    ty: if g.name == "str"@ {
                        TyV::Name("string"@)
                    } else {
                        name_v(g.name)
                    },
                    approx: Seq::empty(),
                }
            } else {
                FromTyV { ty: TyV::Any, approx: seq![unknown_ty_approx_v(g.name)] }
            }
        },
        TypeExprNodeV::IndexT(g, b) => {
            match g.resolved {
                Option::Some(GlobalTypeValueV::ListBuiltin) => {
                    let out = from_type_expr_v(*b);
                    FromTyV { ty: TyV::List(Box::new(out.ty)), approx: out.approx }
                },
                _ => FromTyV { ty: TyV::Any, approx: seq![unknown_ty_approx_v(g.name)] },
            }
        },
        TypeExprNodeV::Index2T(g, k, v) => {
            match g.resolved {
                Option::Some(GlobalTypeValueV::DictBuiltin) => {
                    let ko = from_type_expr_v(*k);
                    let vo = from_type_expr_v(*v);
                    FromTyV {
                        ty: TyV::Dict(Box::new(ko.ty), Box::new(vo.ty)),
                        approx: ko.approx + vo.approx,
                    }
                },
                _ => FromTyV { ty: TyV::Any, approx: seq![unknown_ty_approx_v(g.name)] },
            }
        },
    }
}

/// What converting a sequence of type expressions produces.
#[verifier::ext_equal]
pub struct FromSeqV {
    pub tys: Seq<TyV>,
    pub approx: Seq<ApproximationV>,
}

/// The types a sequence of type expressions denotes, in order.
pub open spec fn from_seq_v(xs: Seq<TypeExprUV>) -> FromSeqV
    decreases xs, 0int,
{
    if xs.len() == 0 {
        FromSeqV { tys: Seq::empty(), approx: Seq::empty() }
    } else {
        let front = from_seq_v(xs.drop_last());
        let out = from_type_expr_v(xs.last());
        FromSeqV { tys: front.tys.push(out.ty), approx: front.approx + out.approx }
    }
}

/// One unfolding of [`from_seq_v`].
proof fn lemma_from_seq_unfold(xs: Seq<TypeExprUV>)
    requires
        xs.len() > 0,
    ensures
        from_seq_v(xs) == ({
            let front = from_seq_v(xs.drop_last());
            let out = from_type_expr_v(xs.last());
            FromSeqV { tys: front.tys.push(out.ty), approx: front.approx + out.approx }
        }),
{
}

/// The models of the elements of a vector of approximations.
pub open spec fn approx_seq_view(es: Seq<Approximation>) -> Seq<ApproximationV>
    decreases es,
{
    if es.len() == 0 {
        Seq::empty()
    } else {
        approx_seq_view(es.drop_last()).push(es.last()@)
    }
}

/// `approx_seq_view` maps the view over the elements.
pub broadcast proof fn lemma_approx_seq_view(es: Seq<Approximation>)
    ensures
        #[trigger] approx_seq_view(es).len() == es.len(),
        forall|i: int| 0 <= i < es.len() ==> approx_seq_view(es)[i] == es[i]@,
    decreases es.len(),
{
    if es.len() > 0 {
        lemma_approx_seq_view(es.drop_last());
    }
}

impl Ty {
    /// The type a type expression denotes, recording an approximation for
    /// every shape the checker does not model.
    pub fn from_type_expr(x: &TypeExprU, approximations: &mut Vec<Approximation>) -> (r: Ty)
        ensures
            ({
                let out = from_type_expr_v(x@);
                &&& r@ == out.ty
                &&& approx_seq_view(final(approximations)@) == approx_seq_view(
                    old(approximations)@,
                ) + out.approx
            }),
        decreases *x, 1int,
    {
        let ghost pre = approximations@;
        match &x.node {
            TypeExprNode::TupleT(xs) => {
                let tys = Ty::from_type_seq(xs, approximations);
                Ty::Tuple(tys)
            },
            TypeExprNode::AnyOfT(xs) => {
                let tys = Ty::from_type_seq(xs, approximations);
                Ty::unions(tys)
            },
            TypeExprNode::ListOfT(b) => {
                let t = Ty::from_type_expr(b, approximations);
                Ty::List(Box::new(t))
            },
            TypeExprNode::DictOfT(kv) => {
                let kt = Ty::from_type_expr(&kv.0, approximations);
                let ghost mid = approx_seq_view(approximations@);
                let vt = Ty::from_type_expr(&kv.1, approximations);
                proof {
                    let ko = from_type_expr_v(kv.0@);
                    let vo = from_type_expr_v(kv.1@);
                    assert(approx_seq_view(approximations@) =~= approx_seq_view(pre) + (
                    ko.approx + vo.approx));
                }
                Ty::Dict(Box::new((kt, vt)))
            },
            TypeExprNode::LiteralT(s) => {
                let r = if is_wildcard_literal(s.as_str()) {
                    Ty::Any
                } else {
                    Ty::name(s.as_str())
                };
                proof {
                    assert(approx_seq_view(approximations@) =~= approx_seq_view(pre)
                        + Seq::<ApproximationV>::empty());
                }
                r
            },
            TypeExprNode::PathT(g, rem) => {
                proof {
                    lemma_names_seq_view(rem@);
                }
                if rem.len() == 0 {
                    match &g.resolved {
                        Option::Some(GlobalTypeValue::TypeValue(t)) => {
                            proof {
                                assert(approx_seq_view(approximations@) =~= approx_seq_view(pre)
                                    + Seq::<ApproximationV>::empty());
                            }
                            crate::ty::clone_ty(t)
                        },
                        _ => push_unknown(approximations, g.name.as_str(), Ghost(pre)),
                    }
                } else if rem.len() == 1 && str_eq(rem[0].as_str(), "type") {
                    proof {
                        assert(approx_seq_view(approximations@) =~= approx_seq_view(pre)
                            + Seq::<ApproximationV>::empty());
                    }
                    if str_eq(g.name.as_str(), "str") {
                        Ty::string()
                    } else {
                        Ty::name(g.name.as_str())
                    }
                } else {
                    push_unknown(approximations, g.name.as_str(), Ghost(pre))
                }
            },
            TypeExprNode::IndexT(g, b) => {
                match &g.resolved {
                    Option::Some(GlobalTypeValue::ListBuiltin) => {
                        let t = Ty::from_type_expr(b, approximations);
                        Ty::List(Box::new(t))
                    },
                    _ => push_unknown(approximations, g.name.as_str(), Ghost(pre)),
                }
            },
            TypeExprNode::Index2T(g, kv) => {
                match &g.resolved {
                    Option::Some(GlobalTypeValue::DictBuiltin) => {
                        let kt = Ty::from_type_expr(&kv.0, approximations);
                        let vt = Ty::from_type_expr(&kv.1, approximations);
                        proof {
                            let ko = from_type_expr_v(kv.0@);
                            let vo = from_type_expr_v(kv.1@);
                            assert(approx_seq_view(approximations@) =~= approx_seq_view(pre) + (
                            ko.approx + vo.approx));
                        }
                        Ty::Dict(Box::new((kt, vt)))
                    },
                    _ => push_unknown(approximations, g.name.as_str(), Ghost(pre)),
                }
            },
        }
    }

    /// The types of each element of a sequence of type expressions.
    fn from_type_seq(xs: &Vec<TypeExprU>, approximations: &mut Vec<Approximation>) -> (tys: Vec<
        Ty,
    >)
        ensures
            ({
                let out = from_seq_v(te_seq_view(xs@));
                &&& seq_views_of(tys@) == out.tys
                &&& approx_seq_view(final(approximations)@) == approx_seq_view(
                    old(approximations)@,
                ) + out.approx
            }),
        decreases *xs, 0int,
    {
        let ghost pre = approximations@;
        let ghost xsv = te_seq_view(xs@);
        proof {
            lemma_te_seq_view(xs@);
        }
        let mut tys: Vec<Ty> = Vec::new();
        let mut i: usize = 0;
        proof {
            assert(approx_seq_view(approximations@) =~= approx_seq_view(pre)
                + Seq::<ApproximationV>::empty());
        }
        while i < xs.len()
            invariant
                xsv == te_seq_view(xs@),
                xsv.len() == xs@.len(),
                i <= xs.len(),
                forall|j: int| 0 <= j < xs@.len() ==> #[trigger] xsv[j] == te_view(xs@[j]),
                seq_views_of(tys@) =~= from_seq_v(xsv.take(i as int)).tys,
                approx_seq_view(approximations@) =~= approx_seq_view(pre) + from_seq_v(
                    xsv.take(i as int),
                ).approx,
            decreases xs.len() - i,
        {
            let t = Ty::from_type_expr(&xs[i], approximations);
            proof {
                lemma_seq_views_of(tys@);
                lemma_seq_views_of(tys@.push(t));
                assert(seq_views_of(tys@.push(t)).drop_last() =~= seq_views_of(tys@));
                assert(xsv.take(i + 1).drop_last() =~= xsv.take(i as int));
                assert(xsv.take(i + 1).last() == xsv[i as int]);
                lemma_from_seq_unfold(xsv.take(i + 1));
                let front = from_seq_v(xsv.take(i as int));
                let out = from_type_expr_v(xsv[i as int]);
                assert(approx_seq_view(approximations@) =~= approx_seq_view(pre) + (front.approx
                    + out.approx));
            }
            tys.push(t);
            i = i + 1;
        }
        proof {
            assert(xsv.take(xs@.len() as int) =~= xsv);
        }
        tys
    }
}

/// Whether a literal names the wildcard type.
fn is_wildcard_literal(s: &str) -> (r: bool)
    ensures
        r == (s@.len() == 0 || s@[0] == '_'),
{
    let n = vstd::string::StrSliceExecFns::unicode_len(s);
    if n == 0 {
        return true;
    }
    vstd::string::StrSliceExecFns::get_char(s, 0) == '_'
}

/// Record an unknown-type approximation and degrade to `Any`.
fn push_unknown(
    approximations: &mut Vec<Approximation>,
    what: &str,
    pre: Ghost<Seq<Approximation>>,
) -> (r: Ty)
    requires
        pre@ == old(approximations)@,
    ensures
        r@ == TyV::Any,
        approx_seq_view(final(approximations)@) == approx_seq_view(pre@) + seq![
            unknown_ty_approx_v(what@),
        ],
{
    let a = Approximation::new("Unknown type", str_to_string(what));
    proof {
        lemma_approx_seq_view(approximations@.push(a));
        assert(approximations@.push(a).drop_last() =~= approximations@);
        assert(approx_seq_view(approximations@.push(a)).drop_last() =~= approx_seq_view(
            approximations@,
        ));
        assert(approx_seq_view(approximations@).push(unknown_ty_approx_v(what@))
            =~= approx_seq_view(approximations@) + seq![unknown_ty_approx_v(what@)]);
    }
    approximations.push(a);
    Ty::Any
}

} // verus!
