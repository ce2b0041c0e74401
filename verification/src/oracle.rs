//! The oracle abstraction: a pluggable lookup service answering attribute,
//! subtype and builtin queries, together with the call validation that the
//! checker performs against it.

use vstd::prelude::*;
use crate::ast::Span;
use crate::display::{display_ty_v, ty_to_str};
use crate::intersect::{intersects_v, ITER_PROBE_DEPTH};
use crate::strings::{str_eq, str_to_string};
use crate::ty::{
    as_name_v, clone_param, clone_ty, lemma_seq_params_views_of, lemma_seq_views_of,
    lemma_view_custom, param_view, seq_params_views_of, seq_views_of, ty_view, view_opt_str,
    Param, ParamMode, ParamModeV, ParamV, Ty, TyCustom, TyCustomV, TyFunctionV, TyName, TyV,
};
use crate::union::unions_v;

verus! {

/// A unary operator the checker dispatches through an attribute.
#[derive(Clone, Copy, Debug, PartialEq, Eq, Structural)]
pub enum TypingUnOp {
    /// `-`.
    Minus,
    /// `+`.
    Plus,
    /// `~`.
    BitNot,
}

/// A binary operator the checker dispatches through an attribute.
#[derive(Clone, Copy, Debug, PartialEq, Eq, Structural)]
pub enum TypingBinOp {
    Add,
    Sub,
    Mul,
    Div,
    FloorDiv,
    Percent,
    In,
    Less,
    BitAnd,
    BitOr,
    BitXor,
    LeftShift,
    RightShift,
}

/// An attribute looked up on a type.
#[derive(Debug)]
pub enum TypingAttr {
    /// A regular, named attribute.
    Regular(String),
    /// The iteration protocol.
    Iter,
    /// The indexing protocol.
    Index,
    /// The slicing protocol.
    Slice,
    /// A binary operator.
    BinOp(TypingBinOp),
    /// A unary operator.
    UnOp(TypingUnOp),
}

/// The model of a [`TypingAttr`].
#[verifier::ext_equal]
pub enum TypingAttrV {
    Regular(Seq<char>),
    Iter,
    Index,
    Slice,
    BinOp(TypingBinOp),
    UnOp(TypingUnOp),
}

impl View for TypingAttr {
    type V = TypingAttrV;

    open spec fn view(&self) -> TypingAttrV {
        match self {
            TypingAttr::Regular(s) => TypingAttrV::Regular(s@),
            TypingAttr::Iter => TypingAttrV::Iter,
            TypingAttr::Index => TypingAttrV::Index,
            TypingAttr::Slice => TypingAttrV::Slice,
            TypingAttr::BinOp(op) => TypingAttrV::BinOp(*op),
            TypingAttr::UnOp(op) => TypingAttrV::UnOp(*op),
        }
    }
}

/// An argument of a call being validated.
#[derive(Debug)]
pub enum Arg {
    /// A positional argument.
    Pos(Ty),
    /// A named argument.
    Name(String, Ty),
    /// `*args`.
    Args(Ty),
    /// `**kwargs`.
    Kwargs(Ty),
}

/// The model of an [`Arg`].
#[verifier::ext_equal]
pub enum ArgV {
    Pos(TyV),
    Name(Seq<char>, TyV),
    Args(TyV),
    Kwargs(TyV),
}

impl View for Arg {
    type V = ArgV;

    open spec fn view(&self) -> ArgV {
        match self {
            Arg::Pos(t) => ArgV::Pos(ty_view(*t)),
            Arg::Name(n, t) => ArgV::Name(n@, ty_view(*t)),
            Arg::Args(t) => ArgV::Args(ty_view(*t)),
            Arg::Kwargs(t) => ArgV::Kwargs(ty_view(*t)),
        }
    }
}

/// The models of the elements of a vector of arguments.
pub open spec fn call_args_view(xs: Seq<Arg>) -> Seq<ArgV>
    decreases xs,
{
    if xs.len() == 0 {
        Seq::empty()
    } else {
        call_args_view(xs.drop_last()).push(xs.last()@)
    }
}

/// `call_args_view` maps the view over the elements.
pub broadcast proof fn lemma_call_args_view(xs: Seq<Arg>)
    ensures
        #[trigger] call_args_view(xs).len() == xs.len(),
        forall|i: int| 0 <= i < xs.len() ==> call_args_view(xs)[i] == xs[i]@,
    decreases xs.len(),
{
    if xs.len() > 0 {
        lemma_call_args_view(xs.drop_last());
    }
}

/// A hard typing error, with the source span it points at.
#[derive(Debug)]
pub struct TypingError {
    /// Where the error is.
    pub span: Span,
    /// What the error is.
    pub kind: TypingErrorKind,
}

/// The kinds of hard typing error.  Types are carried in their rendered
/// form, as the user will see them.
#[derive(Debug)]
pub enum TypingErrorKind {
    /// The attribute `attr` is not available on the type `typ`.
    AttributeNotAvailable { typ: String, attr: String },
    /// The builtin `name` is not known.
    UnknownBuiltin { name: String },
    /// The type `typ` is not callable.
    CallToNonCallable { typ: String },
    /// A positional argument of type `typ` has no parameter left to fill.
    ExtraPositionalArgument { typ: String },
    /// The named argument `name` matches no parameter.
    UnexpectedNamedArgument { name: String },
    /// The required parameter `name` received no argument.
    MissingArgument { name: String },
    /// An argument of type `got` cannot fill a parameter of type `require`.
    ArgumentTypeMismatch { got: String, require: String },
    /// A value of type `got` is required to be of type `require`.
    TypeMismatch { got: String, require: String },
}

/// The model of a [`TypingError`].
#[verifier::ext_equal]
pub struct TypingErrorV {
    pub span: Span,
    pub kind: TypingErrorKindV,
}

/// The model of a [`TypingErrorKind`].
#[verifier::ext_equal]
pub enum TypingErrorKindV {
    AttributeNotAvailable { typ: Seq<char>, attr: Seq<char> },
    UnknownBuiltin { name: Seq<char> },
    CallToNonCallable { typ: Seq<char> },
    ExtraPositionalArgument { typ: Seq<char> },
    UnexpectedNamedArgument { name: Seq<char> },
    MissingArgument { name: Seq<char> },
    ArgumentTypeMismatch { got: Seq<char>, require: Seq<char> },
    TypeMismatch { got: Seq<char>, require: Seq<char> },
}

impl View for TypingError {
    type V = TypingErrorV;

    open spec fn view(&self) -> TypingErrorV {
        TypingErrorV { span: self.span, kind: self.kind@ }
    }
}

impl View for TypingErrorKind {
    type V = TypingErrorKindV;

    open spec fn view(&self) -> TypingErrorKindV {
        match self {
            TypingErrorKind::AttributeNotAvailable { typ, attr } =>
                TypingErrorKindV::AttributeNotAvailable { typ: typ@, attr: attr@ },
            TypingErrorKind::UnknownBuiltin { name } => TypingErrorKindV::UnknownBuiltin {
                name: name@,
            },
            TypingErrorKind::CallToNonCallable { typ } => TypingErrorKindV::CallToNonCallable {
                typ: typ@,
            },
            TypingErrorKind::ExtraPositionalArgument { typ } =>
                TypingErrorKindV::ExtraPositionalArgument { typ: typ@ },
            TypingErrorKind::UnexpectedNamedArgument { name } =>
                TypingErrorKindV::UnexpectedNamedArgument { name: name@ },
            TypingErrorKind::MissingArgument { name } => TypingErrorKindV::MissingArgument {
                name: name@,
            },
            TypingErrorKind::ArgumentTypeMismatch { got, require } =>
                TypingErrorKindV::ArgumentTypeMismatch { got: got@, require: require@ },
            TypingErrorKind::TypeMismatch { got, require } => TypingErrorKindV::TypeMismatch {
                got: got@,
                require: require@,
            },
        }
    }
}

/// The rendering of an error kind as a user-facing message.
pub open spec fn error_message_v(k: TypingErrorKindV) -> Seq<char> {
    match k {
        TypingErrorKindV::AttributeNotAvailable { typ, attr } => "The attribute `"@ + attr
            + "` is not available on the type `"@ + typ + "`"@,
        TypingErrorKindV::UnknownBuiltin { name } => "The builtin `"@ + name + "` is not known"@,
        TypingErrorKindV::CallToNonCallable { typ } => "Call to a non-callable type `"@ + typ
            + "`"@,
        TypingErrorKindV::ExtraPositionalArgument { typ } =>
            "Extra positional argument of type `"@ + typ + "`"@,
        TypingErrorKindV::UnexpectedNamedArgument { name } => "Unexpected named argument `"@
            + name + "`"@,
        TypingErrorKindV::MissingArgument { name } => "Missing required argument `"@ + name
            + "`"@,
        TypingErrorKindV::ArgumentTypeMismatch { got, require } => "Type `"@ + got
            + "` does not match the required type `"@ + require + "`"@,
        TypingErrorKindV::TypeMismatch { got, require } => "Type `"@ + got
            + "` does not intersect the required type `"@ + require + "`"@,
    }
}

impl TypingError {
    /// The user-facing message of this error.
    pub fn message(&self) -> (r: String)
        ensures
            r@ == error_message_v(self@.kind),
    {
        match &self.kind {
            TypingErrorKind::AttributeNotAvailable { typ, attr } => {
                let mut r = str_to_string("The attribute `");
                r.append(attr.as_str());
                r.append("` is not available on the type `");
                r.append(typ.as_str());
                r.append("`");
                r
            },
            TypingErrorKind::UnknownBuiltin { name } => {
                let mut r = str_to_string("The builtin `");
                r.append(name.as_str());
                r.append("` is not known");
                r
            },
            TypingErrorKind::CallToNonCallable { typ } => {
                let mut r = str_to_string("Call to a non-callable type `");
                r.append(typ.as_str());
                r.append("`");
                r
            },
            TypingErrorKind::ExtraPositionalArgument { typ } => {
                let mut r = str_to_string("Extra positional argument of type `");
                r.append(typ.as_str());
                r.append("`");
                r
            },
            TypingErrorKind::UnexpectedNamedArgument { name } => {
                let mut r = str_to_string("Unexpected named argument `");
                r.append(name.as_str());
                r.append("`");
                r
            },
            TypingErrorKind::MissingArgument { name } => {
                let mut r = str_to_string("Missing required argument `");
                r.append(name.as_str());
                r.append("`");
                r
            },
            TypingErrorKind::ArgumentTypeMismatch { got, require } => {
                let mut r = str_to_string("Type `");
                r.append(got.as_str());
                r.append("` does not match the required type `");
                r.append(require.as_str());
                r.append("`");
                r
            },
            TypingErrorKind::TypeMismatch { got, require } => {
                let mut r = str_to_string("Type `");
                r.append(got.as_str());
                r.append("` does not intersect the required type `");
                r.append(require.as_str());
                r.append("`");
                r
            },
        }
    }
}

/// The view of an optional attribute-lookup result.
pub open spec fn view_opt_res(r: Option<Result<Ty, ()>>) -> Option<Result<TyV, ()>> {
    match r {
        Option::None => Option::None,
        Option::Some(Result::Ok(t)) => Option::Some(Result::Ok(ty_view(t))),
        Option::Some(Result::Err(())) => Option::Some(Result::Err(())),
    }
}

/// A lookup service for attribute, subtype and known-type queries against
/// builtin and custom types.
///
/// `None` from an attribute query means the oracle does not know; the
/// checker records an approximation rather than an error.
pub trait TypingOracle {
    /// What `attribute` answers, as a mathematical function.
    spec fn attribute_spec(&self, ty: TyV, attr: TypingAttrV) -> Option<Result<TyV, ()>>;

    /// Whether `sub` names a subtype of `sup`, as a mathematical function.
    spec fn subtype_spec(&self, sub: Seq<char>, sup: Seq<char>) -> bool;

    /// Whether the oracle knows the named type at all, as a mathematical
    /// function.
    spec fn known_type_spec(&self, name: Seq<char>) -> bool;

    /// The attribute `attr` of the type `ty`: unavailable, available with a
    /// type, or unknown to this oracle.
    fn attribute(&self, ty: &Ty, attr: &TypingAttr) -> (r: Option<Result<Ty, ()>>)
        ensures
            view_opt_res(r) == self.attribute_spec(ty@, attr@),
    ;

    /// Whether `sub` names a subtype of `sup`.
    fn subtype(&self, sub: &TyName, sup: &TyName) -> (r: bool)
        ensures
            r == self.subtype_spec(sub@, sup@),
    ;

    /// Whether the oracle knows the named type at all.
    fn known_type(&self, name: &str) -> (r: bool)
        ensures
            r == self.known_type_spec(name@),
    ;
}

/// The table of builtin symbols: each name with its type.
#[derive(Debug)]
pub struct OracleDocs {
    pub(crate) entries: Vec<(String, Ty)>,
}

/// The models of the entries of a builtin table.
pub open(crate) spec fn docs_view(es: Seq<(String, Ty)>) -> Seq<(Seq<char>, TyV)>
    decreases es,
{
    if es.len() == 0 {
        Seq::empty()
    } else {
        docs_view(es.drop_last()).push((es.last().0@, ty_view(es.last().1)))
    }
}

/// `docs_view` maps the view over the entries.
pub broadcast proof fn lemma_docs_view(es: Seq<(String, Ty)>)
    ensures
        #[trigger] docs_view(es).len() == es.len(),
        forall|i: int|
            0 <= i < es.len() ==> docs_view(es)[i] == (es[i].0@, ty_view(es[i].1)),
    decreases es.len(),
{
    if es.len() > 0 {
        lemma_docs_view(es.drop_last());
    }
}

/// The first entry for a name, scanning from the front.
pub open spec fn docs_lookup_v(es: Seq<(Seq<char>, TyV)>, name: Seq<char>) -> Result<TyV, ()>
    decreases es.len(),
{
    if es.len() == 0 {
        Result::Err(())
    } else if es[0].0 == name {
        Result::Ok(es[0].1)
    } else {
        docs_lookup_v(es.drop_first(), name)
    }
}

impl View for OracleDocs {
    type V = Seq<(Seq<char>, TyV)>;

    open(crate) spec fn view(&self) -> Seq<(Seq<char>, TyV)> {
        docs_view(self.entries@)
    }
}

impl OracleDocs {
    /// An empty builtin table.
    pub fn new() -> (r: OracleDocs)
        ensures
            r@ == Seq::<(Seq<char>, TyV)>::empty(),
    {
        let r = OracleDocs { entries: Vec::new() };
        proof {
            lemma_docs_view(r.entries@);
            assert(r@ =~= Seq::<(Seq<char>, TyV)>::empty());
        }
        r
    }

    /// Record the type of a builtin name.
    pub fn add(&mut self, name: &str, ty: Ty)
        ensures
            final(self)@ == old(self)@.push((name@, ty@)),
    {
        let ghost oldv = self@;
        let owned = str_to_string(name);
        proof {
            lemma_docs_view(self.entries@);
            lemma_docs_view(self.entries@.push((owned, ty)));
            assert(docs_view(self.entries@.push((owned, ty))).drop_last() =~= docs_view(
                self.entries@,
            ));
        }
        self.entries.push((owned, ty));
    }

    /// The type of a builtin name, or an error where the name is unknown.
    pub fn builtin(&self, name: &str) -> (r: Result<Ty, ()>)
        ensures
            match r {
                Result::Ok(t) => docs_lookup_v(self@, name@) == Result::Ok::<TyV, ()>(t@),
                Result::Err(()) => docs_lookup_v(self@, name@) == Result::Err::<TyV, ()>(()),
            },
    {
        let ghost dv = self@;
        proof {
            lemma_docs_view(self.entries@);
            assert(dv.skip(0) =~= dv);
        }
        let mut i: usize = 0;
        while i < self.entries.len()
            invariant
                dv == self@,
                dv == docs_view(self.entries@),
                dv.len() == self.entries@.len(),
                i <= self.entries.len(),
                forall|j: int| 0 <= j < self.entries@.len() ==> #[trigger] dv[j] == (
                    self.entries@[j].0@,
                    ty_view(self.entries@[j].1),
                ),
                docs_lookup_v(dv, name@) == docs_lookup_v(dv.skip(i as int), name@),
            decreases self.entries.len() - i,
        {
            if str_eq(self.entries[i].0.as_str(), name) {
                proof {
                    assert(dv.skip(i as int)[0] == dv[i as int]);
                }
                return Result::Ok(clone_ty(&self.entries[i].1));
            }
            i = i + 1;
            proof {
                assert(dv.skip(i - 1)[0] == dv[i - 1]);
                assert(dv.skip(i - 1).drop_first() =~= dv.skip(i as int));
            }
        }
        proof {
            assert(dv.skip(self.entries@.len() as int).len() == 0);
        }
        Result::Err(())
    }
}


/// The positional-capable parameters, in order.
pub open spec fn pos_params_v(ps: Seq<ParamV>) -> Seq<ParamV>
    decreases ps.len(),
{
    if ps.len() == 0 {
        Seq::empty()
    } else {
        let rest = pos_params_v(ps.drop_last());
        match ps.last().mode {
            ParamModeV::PosOnly => rest.push(ps.last()),
            ParamModeV::PosOrName(_) => rest.push(ps.last()),
            _ => rest,
        }
    }
}

/// How many positional-capable parameters must be filled.
pub open spec fn required_pos_count_v(ps: Seq<ParamV>) -> int
    decreases ps.len(),
{
    if ps.len() == 0 {
        0int
    } else {
        let rest = required_pos_count_v(ps.drop_last());
        match ps.last().mode {
            ParamModeV::PosOnly => if ps.last().optional {
                rest
            } else {
                rest + 1
            },
            ParamModeV::PosOrName(_) => if ps.last().optional {
                rest
            } else {
                rest + 1
            },
            _ => rest,
        }
    }
}

/// Whether the parameters take `*args`.
pub open spec fn has_args_param_v(ps: Seq<ParamV>) -> bool {
    exists|i: int| 0 <= i < ps.len() && (#[trigger] ps[i].mode) is Args
}

/// Whether the parameters take `**kwargs`.
pub open spec fn has_kwargs_param_v(ps: Seq<ParamV>) -> bool {
    exists|i: int| 0 <= i < ps.len() && (#[trigger] ps[i].mode) is Kwargs
}

/// The first parameter answering to the given name.
pub open spec fn find_named_v(ps: Seq<ParamV>, n: Seq<char>) -> Option<ParamV>
    decreases ps.len(),
{
    if ps.len() == 0 {
        Option::None
    } else {
        match ps[0].mode {
            ParamModeV::PosOrName(m) => if m == n {
                Option::Some(ps[0])
            } else {
                find_named_v(ps.drop_first(), n)
            },
            ParamModeV::NameOnly(m) => if m == n {
                Option::Some(ps[0])
            } else {
                find_named_v(ps.drop_first(), n)
            },
            _ => find_named_v(ps.drop_first(), n),
        }
    }
}

/// The user-facing name of a parameter; empty for a positional-only one.
pub open spec fn param_display_name_v(p: ParamV) -> Seq<char> {
    match p.mode {
        ParamModeV::PosOrName(n) => n,
        ParamModeV::NameOnly(n) => n,
        _ => Seq::empty(),
    }
}

/// Whether a `*args` argument is among the arguments.
pub open spec fn args_has_star_v(args: Seq<ArgV>) -> bool {
    exists|i: int| 0 <= i < args.len() && (#[trigger] args[i]) is Args
}

/// Matching of the arguments against the parameters of a function, front to
/// back: the number of positional parameters filled, or the first error.
pub open spec fn check_args_v<O: TypingOracle>(
    o: &O,
    span: Span,
    params: Seq<ParamV>,
    args: Seq<ArgV>,
    pos_used: int,
) -> Result<int, TypingErrorV>
    decreases args.len(),
{
    if args.len() == 0 {
        Result::Ok(pos_used)
    } else {
        match args[0] {
            ArgV::Pos(t) => {
                let pp = pos_params_v(params);
                if pos_used < pp.len() {
                    if intersects_v(t, pp[pos_used].ty, o, ITER_PROBE_DEPTH as nat) {
                        check_args_v(o, span, params, args.drop_first(), pos_used + 1)
                    } else {
                        Result::Err(
                            TypingErrorV {
                                span,
                                kind: TypingErrorKindV::ArgumentTypeMismatch {
                                    got: display_ty_v(t),
                                    require: display_ty_v(pp[pos_used].ty),
                                },
                            },
                        )
                    }
                } else if has_args_param_v(params) {
                    check_args_v(o, span, params, args.drop_first(), pos_used)
                } else {
                    Result::Err(
                        TypingErrorV {
                            span,
                            kind: TypingErrorKindV::ExtraPositionalArgument {
                                typ: display_ty_v(t),
                            },
                        },
                    )
                }
            },
            ArgV::Name(n, t) => {
                match find_named_v(params, n) {
                    Option::Some(p) => {
                        if intersects_v(t, p.ty, o, ITER_PROBE_DEPTH as nat) {
                            check_args_v(o, span, params, args.drop_first(), pos_used)
                        } else {
                            Result::Err(
                                TypingErrorV {
                                    span,
                                    kind: TypingErrorKindV::ArgumentTypeMismatch {
                                        got: display_ty_v(t),
                                        require: display_ty_v(p.ty),
                                    },
                                },
                            )
                        }
                    },
                    Option::None => {
                        if has_kwargs_param_v(params) {
                            check_args_v(o, span, params, args.drop_first(), pos_used)
                        } else {
                            Result::Err(
                                TypingErrorV {
                                    span,
                                    kind: TypingErrorKindV::UnexpectedNamedArgument { name: n },
                                },
                            )
                        }
                    },
                }
            },
            ArgV::Args(_) => check_args_v(o, span, params, args.drop_first(), pos_used),
            ArgV::Kwargs(_) => check_args_v(o, span, params, args.drop_first(), pos_used),
        }
    }
}

/// Validation of a call to a function type: the arguments are matched
/// against the parameters, and a required positional parameter left unfilled
/// is an error unless a `*args` argument was passed.
pub open spec fn validate_fun_call_v<O: TypingOracle>(
    o: &O,
    span: Span,
    f: TyFunctionV,
    args: Seq<ArgV>,
) -> Result<TyV, TypingErrorV> {
    match check_args_v(o, span, f.params, args, 0) {
        Result::Err(e) => Result::Err(e),
        Result::Ok(used) => if !args_has_star_v(args) && used < required_pos_count_v(f.params) {
            Result::Err(
                TypingErrorV {
                    span,
                    kind: TypingErrorKindV::MissingArgument {
                        name: param_display_name_v(pos_params_v(f.params)[used]),
                    },
                },
            )
        } else {
            Result::Ok(*f.result)
        },
    }
}

/// Validation of a call: `Any` and `Never` flow through, a function type is
/// matched in detail, a union succeeds optimistically when any alternative
/// does, an unknown name is optimistically callable, and anything else is a
/// call to a non-callable.
pub open spec fn validate_call_v<O: TypingOracle>(
    o: &O,
    span: Span,
    fun: TyV,
    args: Seq<ArgV>,
) -> Result<TyV, TypingErrorV>
    decreases fun,
{
    match fun {
        TyV::Any => Result::Ok(TyV::Any),
        TyV::Never => Result::Ok(TyV::Never),
        TyV::Custom(TyCustomV::Function(f)) => validate_fun_call_v(o, span, f, args),
        TyV::Name(n) => if o.known_type_spec(n) {
            Result::Err(
                TypingErrorV {
                    span,
                    kind: TypingErrorKindV::CallToNonCallable { typ: display_ty_v(fun) },
                },
            )
        } else {
            Result::Ok(TyV::Any)
        },
        TyV::Union(alts) => {
            let oks = union_oks_v(o, span, alts, args);
            if oks.len() > 0 || alts.len() == 0 {
                Result::Ok(unions_v(oks))
            } else {
                match first_err_v(o, span, alts, args) {
                    Option::Some(e) => Result::Err(e),
                    Option::None => Result::Ok(TyV::Never),
                }
            }
        },
        _ => Result::Err(
            TypingErrorV {
                span,
                kind: TypingErrorKindV::CallToNonCallable { typ: display_ty_v(fun) },
            },
        ),
    }
}

/// The result types of the alternatives whose call validates.
pub open spec fn union_oks_v<O: TypingOracle>(
    o: &O,
    span: Span,
    alts: Seq<TyV>,
    args: Seq<ArgV>,
) -> Seq<TyV>
    decreases alts,
{
    if alts.len() == 0 {
        Seq::empty()
    } else {
        let rest = union_oks_v(o, span, alts.drop_first(), args);
        match validate_call_v(o, span, alts[0], args) {
            Result::Ok(t) => seq![t] + rest,
            Result::Err(_) => rest,
        }
    }
}

/// The first error among the alternatives, if any.
pub open spec fn first_err_v<O: TypingOracle>(
    o: &O,
    span: Span,
    alts: Seq<TyV>,
    args: Seq<ArgV>,
) -> Option<TypingErrorV>
    decreases alts,
{
    if alts.len() == 0 {
        Option::None
    } else {
        match validate_call_v(o, span, alts[0], args) {
            Result::Err(e) => Option::Some(e),
            Result::Ok(_) => first_err_v(o, span, alts.drop_first(), args),
        }
    }
}

/// Validation of a required type: an error exactly where the types cannot
/// intersect.
pub fn validate_type<O: TypingOracle>(
    oracle: &O,
    got: &Ty,
    require: &Ty,
    span: Span,
) -> (r: Result<(), TypingError>)
    ensures
        match r {
            Result::Ok(()) => intersects_v(got@, require@, oracle, ITER_PROBE_DEPTH as nat),
            Result::Err(e) => !intersects_v(got@, require@, oracle, ITER_PROBE_DEPTH as nat)
                && e@ == (TypingErrorV {
                span,
                kind: TypingErrorKindV::TypeMismatch {
                    got: display_ty_v(got@),
                    require: display_ty_v(require@),
                },
            }),
        },
{
    if got.intersects(require, oracle) {
        Result::Ok(())
    } else {
        Result::Err(
            TypingError {
                span,
                kind: TypingErrorKind::TypeMismatch {
                    got: ty_to_str(got),
                    require: ty_to_str(require),
                },
            },
        )
    }
}

/// The positional-capable parameters, in order.
fn pos_params(ps: &Vec<Param>) -> (r: Vec<Param>)
    ensures
        seq_params_views_of(r@) == pos_params_v(seq_params_views_of(ps@)),
{
    let ghost psv = seq_params_views_of(ps@);
    proof {
        lemma_seq_params_views_of(ps@);
    }
    let mut r: Vec<Param> = Vec::new();
    let mut i: usize = 0;
    while i < ps.len()
        invariant
            psv == seq_params_views_of(ps@),
            psv.len() == ps@.len(),
            i <= ps.len(),
            forall|j: int| 0 <= j < ps@.len() ==> #[trigger] psv[j] == param_view(ps@[j]),
            seq_params_views_of(r@) =~= pos_params_v(psv.take(i as int)),
        decreases ps.len() - i,
    {
        proof {
            assert(psv.take(i + 1).drop_last() =~= psv.take(i as int));
            assert(psv.take(i + 1).last() == psv[i as int]);
        }
        let keep = match &ps[i].mode {
            ParamMode::PosOnly => true,
            ParamMode::PosOrName(_) => true,
            _ => false,
        };
        if keep {
            let c = clone_param(&ps[i]);
            proof {
                lemma_seq_params_views_of(r@);
                lemma_seq_params_views_of(r@.push(c));
                assert(seq_params_views_of(r@.push(c)).drop_last() =~= seq_params_views_of(r@));
            }
            r.push(c);
        }
        i = i + 1;
        proof {
            assert(seq_params_views_of(r@) =~= pos_params_v(psv.take(i as int)));
        }
    }
    proof {
        assert(psv.take(ps@.len() as int) =~= psv);
    }
    r
}

/// How many positional-capable parameters must be filled.
fn required_pos_count(ps: &Vec<Param>) -> (r: usize)
    ensures
        r as int == required_pos_count_v(seq_params_views_of(ps@)),
{
    let ghost psv = seq_params_views_of(ps@);
    proof {
        lemma_seq_params_views_of(ps@);
        lemma_required_pos_count_bound(psv);
    }
    let mut r: usize = 0;
    let mut i: usize = 0;
    while i < ps.len()
        invariant
            psv == seq_params_views_of(ps@),
            psv.len() == ps@.len(),
            i <= ps.len(),
            forall|j: int| 0 <= j < ps@.len() ==> #[trigger] psv[j] == param_view(ps@[j]),
            r as int == required_pos_count_v(psv.take(i as int)),
            r <= i,
        decreases ps.len() - i,
    {
        proof {
            assert(psv.take(i + 1).drop_last() =~= psv.take(i as int));
            assert(psv.take(i + 1).last() == psv[i as int]);
            lemma_required_pos_count_bound(psv.take(i as int));
        }
        let add = match &ps[i].mode {
            ParamMode::PosOnly => !ps[i].optional,
            ParamMode::PosOrName(_) => !ps[i].optional,
            _ => false,
        };
        if add {
            r = r + 1;
        }
        i = i + 1;
    }
    proof {
        assert(psv.take(ps@.len() as int) =~= psv);
    }
    r
}

/// The count of required positional parameters is at most the length.
proof fn lemma_required_pos_count_bound(ps: Seq<ParamV>)
    ensures
        0 <= required_pos_count_v(ps) <= ps.len(),
    decreases ps.len(),
{
    if ps.len() > 0 {
        lemma_required_pos_count_bound(ps.drop_last());
    }
}

/// Whether the parameters take `*args`.
fn has_args_param(ps: &Vec<Param>) -> (r: bool)
    ensures
        r == has_args_param_v(seq_params_views_of(ps@)),
{
    let ghost psv = seq_params_views_of(ps@);
    proof {
        lemma_seq_params_views_of(ps@);
    }
    let mut i: usize = 0;
    while i < ps.len()
        invariant
            psv == seq_params_views_of(ps@),
            psv.len() == ps@.len(),
            i <= ps.len(),
            forall|j: int| 0 <= j < ps@.len() ==> #[trigger] psv[j] == param_view(ps@[j]),
            forall|j: int| 0 <= j < i ==> !((#[trigger] psv[j].mode) is Args),
        decreases ps.len() - i,
    {
        let hit = match &ps[i].mode {
            ParamMode::Args => true,
            _ => false,
        };
        if hit {
            proof {
                assert(psv[i as int].mode is Args);
            }
            return true;
        }
        i = i + 1;
    }
    proof {
        if has_args_param_v(psv) {
            let j = choose|j: int| 0 <= j < psv.len() && (#[trigger] psv[j].mode) is Args;
        }
    }
    false
}

/// Whether the parameters take `**kwargs`.
fn has_kwargs_param(ps: &Vec<Param>) -> (r: bool)
    ensures
        r == has_kwargs_param_v(seq_params_views_of(ps@)),
{
    let ghost psv = seq_params_views_of(ps@);
    proof {
        lemma_seq_params_views_of(ps@);
    }
    let mut i: usize = 0;
    while i < ps.len()
        invariant
            psv == seq_params_views_of(ps@),
            psv.len() == ps@.len(),
            i <= ps.len(),
            forall|j: int| 0 <= j < ps@.len() ==> #[trigger] psv[j] == param_view(ps@[j]),
            forall|j: int| 0 <= j < i ==> !((#[trigger] psv[j].mode) is Kwargs),
        decreases ps.len() - i,
    {
        let hit = match &ps[i].mode {
            ParamMode::Kwargs => true,
            _ => false,
        };
        if hit {
            proof {
                assert(psv[i as int].mode is Kwargs);
            }
            return true;
        }
        i = i + 1;
    }
    proof {
        if has_kwargs_param_v(psv) {
            let j = choose|j: int| 0 <= j < psv.len() && (#[trigger] psv[j].mode) is Kwargs;
        }
    }
    false
}

/// The first parameter answering to the given name.
fn find_named(ps: &Vec<Param>, n: &str) -> (r: Option<Param>)
    ensures
        match r {
            Option::Some(p) => find_named_v(seq_params_views_of(ps@), n@) == Option::Some(
                param_view(p),
            ),
            Option::None => find_named_v(seq_params_views_of(ps@), n@)
                == Option::None::<ParamV>,
        },
{
    let ghost psv = seq_params_views_of(ps@);
    proof {
        lemma_seq_params_views_of(ps@);
        assert(psv.skip(0) =~= psv);
    }
    let mut i: usize = 0;
    while i < ps.len()
        invariant
            psv == seq_params_views_of(ps@),
            psv.len() == ps@.len(),
            i <= ps.len(),
            forall|j: int| 0 <= j < ps@.len() ==> #[trigger] psv[j] == param_view(ps@[j]),
            find_named_v(psv, n@) == find_named_v(psv.skip(i as int), n@),
        decreases ps.len() - i,
    {
        proof {
            assert(psv.skip(i as int)[0] == psv[i as int]);
            assert(psv.skip(i as int).drop_first() =~= psv.skip(i + 1));
        }
        let hit = match &ps[i].mode {
            ParamMode::PosOrName(m) => str_eq(m.as_str(), n),
            ParamMode::NameOnly(m) => str_eq(m.as_str(), n),
            _ => false,
        };
        if hit {
            return Option::Some(clone_param(&ps[i]));
        }
        i = i + 1;
    }
    proof {
        assert(psv.skip(ps@.len() as int).len() == 0);
    }
    Option::None
}


/// No more positional parameters are required than there are positional
/// parameters.
proof fn lemma_required_le_pos_len(ps: Seq<ParamV>)
    ensures
        required_pos_count_v(ps) <= pos_params_v(ps).len(),
    decreases ps.len(),
{
    if ps.len() > 0 {
        lemma_required_le_pos_len(ps.drop_last());
    }
}

/// Whether a `*args` argument is among the arguments.
fn args_has_star(args: &Vec<Arg>) -> (r: bool)
    ensures
        r == args_has_star_v(call_args_view(args@)),
{
    let ghost av = call_args_view(args@);
    proof {
        lemma_call_args_view(args@);
    }
    let mut i: usize = 0;
    while i < args.len()
        invariant
            av == call_args_view(args@),
            av.len() == args@.len(),
            i <= args.len(),
            forall|j: int| 0 <= j < args@.len() ==> #[trigger] av[j] == args@[j]@,
            forall|j: int| 0 <= j < i ==> !((#[trigger] av[j]) is Args),
        decreases args.len() - i,
    {
        let hit = match &args[i] {
            Arg::Args(_) => true,
            _ => false,
        };
        if hit {
            proof {
                assert(av[i as int] is Args);
            }
            return true;
        }
        i = i + 1;
    }
    proof {
        if args_has_star_v(av) {
            let j = choose|j: int| 0 <= j < av.len() && (#[trigger] av[j]) is Args;
        }
    }
    false
}

/// The user-facing name of a parameter.
fn param_display_name(p: &Param) -> (r: String)
    ensures
        r@ == param_display_name_v(param_view(*p)),
{
    match &p.mode {
        ParamMode::PosOrName(n) => n.clone(),
        ParamMode::NameOnly(n) => n.clone(),
        _ => String::new(),
    }
}

/// A call-to-non-callable error for the given type.
fn non_callable(fun: &Ty, span: Span) -> (r: TypingError)
    ensures
        r@ == (TypingErrorV {
            span,
            kind: TypingErrorKindV::CallToNonCallable { typ: display_ty_v(fun@) },
        }),
{
    TypingError { span, kind: TypingErrorKind::CallToNonCallable { typ: ty_to_str(fun) } }
}

/// Matching of the arguments against the parameters, front to back.
fn check_args<O: TypingOracle>(
    oracle: &O,
    span: Span,
    params: &Vec<Param>,
    args: &Vec<Arg>,
) -> (r: Result<usize, TypingError>)
    ensures
        match r {
            Result::Ok(u) => check_args_v(
                oracle,
                span,
                seq_params_views_of(params@),
                call_args_view(args@),
                0,
            ) == Result::Ok::<int, TypingErrorV>(u as int),
            Result::Err(e) => check_args_v(
                oracle,
                span,
                seq_params_views_of(params@),
                call_args_view(args@),
                0,
            ) == Result::Err::<int, TypingErrorV>(e@),
        },
{
    let ghost pv = seq_params_views_of(params@);
    let ghost av = call_args_view(args@);
    proof {
        lemma_seq_params_views_of(params@);
        lemma_call_args_view(args@);
        assert(av.skip(0) =~= av);
    }
    let pp = pos_params(params);
    let ghost ppv = seq_params_views_of(pp@);
    proof {
        lemma_seq_params_views_of(pp@);
    }
    let has_args = has_args_param(params);
    let has_kwargs = has_kwargs_param(params);
    let mut pos_used: usize = 0;
    let mut i: usize = 0;
    while i < args.len()
        invariant
            pv == seq_params_views_of(params@),
            av == call_args_view(args@),
            av.len() == args@.len(),
            ppv == seq_params_views_of(pp@),
            ppv == pos_params_v(pv),
            ppv.len() == pp@.len(),
            has_args == has_args_param_v(pv),
            has_kwargs == has_kwargs_param_v(pv),
            i <= args.len(),
            pos_used <= pp.len(),
            forall|j: int| 0 <= j < args@.len() ==> #[trigger] av[j] == args@[j]@,
            forall|j: int| 0 <= j < pp@.len() ==> #[trigger] ppv[j] == param_view(pp@[j]),
            check_args_v(oracle, span, pv, av, 0) == check_args_v(
                oracle,
                span,
                pv,
                av.skip(i as int),
                pos_used as int,
            ),
        decreases args.len() - i,
    {
        proof {
            assert(av.skip(i as int)[0] == av[i as int]);
            assert(av.skip(i as int).drop_first() =~= av.skip(i + 1));
        }
        match &args[i] {
            Arg::Pos(t) => {
                if pos_used < pp.len() {
                    let p = &pp[pos_used];
                    if t.intersects(&p.ty, oracle) {
                        pos_used = pos_used + 1;
                    } else {
                        return Result::Err(
                            TypingError {
                                span,
                                kind: TypingErrorKind::ArgumentTypeMismatch {
                                    got: ty_to_str(t),
                                    require: ty_to_str(&p.ty),
                                },
                            },
                        );
                    }
                } else if has_args {
                } else {
                    return Result::Err(
                        TypingError {
                            span,
                            kind: TypingErrorKind::ExtraPositionalArgument { typ: ty_to_str(t) },
                        },
                    );
                }
            },
            Arg::Name(n, t) => {
                match find_named(params, n.as_str()) {
                    Option::Some(p) => {
                        if t.intersects(&p.ty, oracle) {
                        } else {
                            return Result::Err(
                                TypingError {
                                    span,
                                    kind: TypingErrorKind::ArgumentTypeMismatch {
                                        got: ty_to_str(t),
                                        require: ty_to_str(&p.ty),
                                    },
                                },
                            );
                        }
                    },
                    Option::None => {
                        if has_kwargs {
                        } else {
                            return Result::Err(
                                TypingError {
                                    span,
                                    kind: TypingErrorKind::UnexpectedNamedArgument {
                                        name: n.clone(),
                                    },
                                },
                            );
                        }
                    },
                }
            },
            Arg::Args(_) => {},
            Arg::Kwargs(_) => {},
        }
        i = i + 1;
    }
    proof {
        assert(av.skip(args@.len() as int).len() == 0);
    }
    Result::Ok(pos_used)
}

/// Validation of a call against the called type.  See [`validate_call_v`]
/// for what is accepted and which error is reported.
pub fn validate_call<O: TypingOracle>(
    oracle: &O,
    span: Span,
    fun: &Ty,
    args: &Vec<Arg>,
) -> (r: Result<Ty, TypingError>)
    ensures
        match r {
            Result::Ok(t) => validate_call_v(oracle, span, fun@, call_args_view(args@))
                == Result::Ok::<TyV, TypingErrorV>(t@),
            Result::Err(e) => validate_call_v(oracle, span, fun@, call_args_view(args@))
                == Result::Err::<TyV, TypingErrorV>(e@),
        },
    decreases *fun,
{
    match fun {
        Ty::Any => Result::Ok(Ty::Any),
        Ty::Never => Result::Ok(Ty::Never),
        Ty::Custom(c) => {
            proof {
                lemma_view_custom(*c);
            }
            match c {
                TyCustom::Function(f) => {
                    proof {
                        crate::ty::lemma_view_custom_function(*f);
                        crate::ty::lemma_view_function(*f);
                    }
                    match check_args(oracle, span, &f.params, args) {
                        Result::Err(e) => Result::Err(e),
                        Result::Ok(used) => {
                            let star = args_has_star(args);
                            let req = required_pos_count(&f.params);
                            if !star && used < req {
                                let pp = pos_params(&f.params);
                                proof {
                                    lemma_required_le_pos_len(seq_params_views_of(f.params@));
                                    lemma_seq_params_views_of(pp@);
                                }
                                let nm = param_display_name(&pp[used]);
                                Result::Err(
                                    TypingError {
                                        span,
                                        kind: TypingErrorKind::MissingArgument { name: nm },
                                    },
                                )
                            } else {
                                Result::Ok(clone_ty(&f.result))
                            }
                        },
                    }
                },
                TyCustom::Opaque(_) => Result::Err(non_callable(fun, span)),
            }
        },
        Ty::Name(n) => {
            if oracle.known_type(n.as_str()) {
                Result::Err(non_callable(fun, span))
            } else {
                Result::Ok(Ty::Any)
            }
        },
        Ty::Union(u) => validate_union(oracle, span, &u.alternatives, args, Ghost(fun@)),
        _ => Result::Err(non_callable(fun, span)),
    }
}

/// Validation of a call to a union: optimistic, succeeding when any
/// alternative does.
fn validate_union<O: TypingOracle>(
    oracle: &O,
    span: Span,
    alts: &Vec<Ty>,
    args: &Vec<Arg>,
    whole: Ghost<TyV>,
) -> (r: Result<Ty, TypingError>)
    requires
        whole@ == TyV::Union(seq_views_of(alts@)),
    ensures
        match r {
            Result::Ok(t) => validate_call_v(oracle, span, whole@, call_args_view(args@))
                == Result::Ok::<TyV, TypingErrorV>(t@),
            Result::Err(e) => validate_call_v(oracle, span, whole@, call_args_view(args@))
                == Result::Err::<TyV, TypingErrorV>(e@),
        },
    decreases *alts,
{
    let ghost altsv = seq_views_of(alts@);
    let ghost av = call_args_view(args@);
    proof {
        lemma_seq_views_of(alts@);
        assert(altsv.skip(0) =~= altsv);
    }
    let mut oks: Vec<Ty> = Vec::new();
    let mut first_err: Option<TypingError> = Option::None;
    let mut i: usize = 0;
    while i < alts.len()
        invariant
            altsv == seq_views_of(alts@),
            av == call_args_view(args@),
            altsv.len() == alts@.len(),
            i <= alts.len(),
            forall|j: int| 0 <= j < alts@.len() ==> #[trigger] altsv[j] == ty_view(alts@[j]),
            union_oks_v(oracle, span, altsv, av) =~= seq_views_of(oks@) + union_oks_v(
                oracle,
                span,
                altsv.skip(i as int),
                av,
            ),
            first_err_v(oracle, span, altsv, av) == (match first_err {
                Option::Some(e) => Option::Some(e@),
                Option::None => first_err_v(oracle, span, altsv.skip(i as int), av),
            }),
        decreases alts.len() - i,
    {
        proof {
            assert(altsv.skip(i as int)[0] == altsv[i as int]);
            assert(altsv.skip(i as int).drop_first() =~= altsv.skip(i + 1));
            lemma_seq_views_of(oks@);
        }
        match validate_call(oracle, span, &alts[i], args) {
            Result::Ok(t) => {
                proof {
                    lemma_seq_views_of(oks@.push(t));
                    assert(seq_views_of(oks@.push(t)).drop_last() =~= seq_views_of(oks@));
                    assert(seq_views_of(oks@.push(t)) =~= seq_views_of(oks@).push(t@));
                }
                oks.push(t);
                proof {
                    assert(seq_views_of(oks@) + union_oks_v(oracle, span, altsv.skip(i + 1), av)
                        =~= seq_views_of(oks@.drop_last()) + (seq![t@] + union_oks_v(
                        oracle,
                        span,
                        altsv.skip(i + 1),
                        av,
                    )));
                }
            },
            Result::Err(e) => {
                if first_err.is_none() {
                    first_err = Option::Some(e);
                }
            },
        }
        i = i + 1;
    }
    proof {
        assert(altsv.skip(alts@.len() as int).len() == 0);
        assert(union_oks_v(oracle, span, altsv.skip(alts@.len() as int), av)
            =~= Seq::<TyV>::empty());
        assert(union_oks_v(oracle, span, altsv, av) =~= seq_views_of(oks@));
        lemma_seq_views_of(oks@);
    }
    if oks.len() > 0 || alts.len() == 0 {
        let ghost oksv = seq_views_of(oks@);
        let t = Ty::unions(oks);
        Result::Ok(t)
    } else {
        match first_err {
            Option::Some(e) => Result::Err(e),
            Option::None => Result::Ok(Ty::Never),
        }
    }
}


/// Equality of two attributes.
fn typing_attr_eq(a: &TypingAttr, b: &TypingAttr) -> (r: bool)
    ensures
        r == (a@ == b@),
{
    match (a, b) {
        (TypingAttr::Regular(x), TypingAttr::Regular(y)) => str_eq(x.as_str(), y.as_str()),
        (TypingAttr::Iter, TypingAttr::Iter) => true,
        (TypingAttr::Index, TypingAttr::Index) => true,
        (TypingAttr::Slice, TypingAttr::Slice) => true,
        (TypingAttr::BinOp(x), TypingAttr::BinOp(y)) => x == y,
        (TypingAttr::UnOp(x), TypingAttr::UnOp(y)) => x == y,
        _ => false,
    }
}

/// A simple, table-driven oracle: attribute entries keyed by type name and
/// attribute, subtype pairs, and the set of type names it knows at all.
#[derive(Debug)]
pub struct OracleSimple {
    /// Attribute entries: type name, attribute, resulting type.
    pub attrs: Vec<(String, TypingAttr, Ty)>,
    /// Subtype pairs, each `(sub, sup)`.
    pub subtypes: Vec<(String, String)>,
    /// The type names the oracle knows at all.
    pub known: Vec<String>,
}

/// The models of the attribute entries.
pub open spec fn attrs_view(es: Seq<(String, TypingAttr, Ty)>) -> Seq<
    (Seq<char>, TypingAttrV, TyV),
>
    decreases es,
{
    if es.len() == 0 {
        Seq::empty()
    } else {
        attrs_view(es.drop_last()).push(
            (es.last().0@, es.last().1@, ty_view(es.last().2)),
        )
    }
}

/// `attrs_view` maps the view over the entries.
pub broadcast proof fn lemma_attrs_view(es: Seq<(String, TypingAttr, Ty)>)
    ensures
        #[trigger] attrs_view(es).len() == es.len(),
        forall|i: int|
            0 <= i < es.len() ==> attrs_view(es)[i] == (
                es[i].0@,
                es[i].1@,
                ty_view(es[i].2),
            ),
    decreases es.len(),
{
    if es.len() > 0 {
        lemma_attrs_view(es.drop_last());
    }
}

/// The models of the subtype entries.
pub open spec fn pairs_view(es: Seq<(String, String)>) -> Seq<(Seq<char>, Seq<char>)>
    decreases es,
{
    if es.len() == 0 {
        Seq::empty()
    } else {
        pairs_view(es.drop_last()).push((es.last().0@, es.last().1@))
    }
}

/// `pairs_view` maps the view over the entries.
pub broadcast proof fn lemma_pairs_view(es: Seq<(String, String)>)
    ensures
        #[trigger] pairs_view(es).len() == es.len(),
        forall|i: int| 0 <= i < es.len() ==> pairs_view(es)[i] == (es[i].0@, es[i].1@),
    decreases es.len(),
{
    if es.len() > 0 {
        lemma_pairs_view(es.drop_last());
    }
}

/// The models of the known names.
pub open spec fn names_view(es: Seq<String>) -> Seq<Seq<char>>
    decreases es,
{
    if es.len() == 0 {
        Seq::empty()
    } else {
        names_view(es.drop_last()).push(es.last()@)
    }
}

/// `names_view` maps the view over the entries.
pub broadcast proof fn lemma_names_view(es: Seq<String>)
    ensures
        #[trigger] names_view(es).len() == es.len(),
        forall|i: int| 0 <= i < es.len() ==> names_view(es)[i] == es[i]@,
    decreases es.len(),
{
    if es.len() > 0 {
        lemma_names_view(es.drop_last());
    }
}

/// The first attribute entry for a type name and attribute.
pub open spec fn attr_lookup_v(
    es: Seq<(Seq<char>, TypingAttrV, TyV)>,
    n: Seq<char>,
    attr: TypingAttrV,
) -> Option<TyV>
    decreases es.len(),
{
    if es.len() == 0 {
        Option::None
    } else if es[0].0 == n && es[0].1 == attr {
        Option::Some(es[0].2)
    } else {
        attr_lookup_v(es.drop_first(), n, attr)
    }
}

/// What [`OracleSimple`] answers for an attribute: nothing for a type
/// without a name or with an unknown name, the entry's type where the table
/// has one, and "not available" for a known type without the entry.
pub open spec fn simple_attribute_v(o: OracleSimple, ty: TyV, attr: TypingAttrV) -> Option<
    Result<TyV, ()>,
> {
    match as_name_v(ty) {
        Option::None => Option::None,
        Option::Some(n) => if !names_view(o.known@).contains(n) {
            Option::None
        } else {
            match attr_lookup_v(attrs_view(o.attrs@), n, attr) {
                Option::Some(t) => Option::Some(Result::Ok(t)),
                Option::None => Option::Some(Result::Err(())),
            }
        },
    }
}

/// What [`OracleSimple`] answers for a subtype query.
pub open spec fn simple_subtype_v(o: OracleSimple, sub: Seq<char>, sup: Seq<char>) -> bool {
    pairs_view(o.subtypes@).contains((sub, sup))
}

/// What [`OracleSimple`] answers for a known-type query.
pub open spec fn simple_known_v(o: OracleSimple, name: Seq<char>) -> bool {
    names_view(o.known@).contains(name)
}

impl TypingOracle for OracleSimple {
    open spec fn attribute_spec(&self, ty: TyV, attr: TypingAttrV) -> Option<Result<TyV, ()>> {
        simple_attribute_v(*self, ty, attr)
    }

    open spec fn subtype_spec(&self, sub: Seq<char>, sup: Seq<char>) -> bool {
        simple_subtype_v(*self, sub, sup)
    }

    open spec fn known_type_spec(&self, name: Seq<char>) -> bool {
        simple_known_v(*self, name)
    }

    fn attribute(&self, ty: &Ty, attr: &TypingAttr) -> (r: Option<Result<Ty, ()>>) {
        let name = match ty.as_name() {
            Option::Some(n) => n,
            Option::None => {
                return Option::None;
            },
        };
        if !self.known_type(name) {
            return Option::None;
        }
        let ghost ev = attrs_view(self.attrs@);
        proof {
            lemma_attrs_view(self.attrs@);
            assert(ev.skip(0) =~= ev);
        }
        let mut i: usize = 0;
        while i < self.attrs.len()
            invariant
                as_name_v(ty@) == Option::Some(name@),
                names_view(self.known@).contains(name@),
                ev == attrs_view(self.attrs@),
                ev.len() == self.attrs@.len(),
                i <= self.attrs.len(),
                forall|j: int| 0 <= j < self.attrs@.len() ==> #[trigger] ev[j] == (
                    self.attrs@[j].0@,
                    self.attrs@[j].1@,
                    ty_view(self.attrs@[j].2),
                ),
                attr_lookup_v(ev, name@, attr@) == attr_lookup_v(
                    ev.skip(i as int),
                    name@,
                    attr@,
                ),
            decreases self.attrs.len() - i,
        {
            proof {
                assert(ev.skip(i as int)[0] == ev[i as int]);
                assert(ev.skip(i as int).drop_first() =~= ev.skip(i + 1));
            }
            if str_eq(self.attrs[i].0.as_str(), name) && typing_attr_eq(&self.attrs[i].1, attr) {
                proof {
                    assert(ev[i as int] == (name@, attr@, ty_view(self.attrs@[i as int].2)));
                    assert(attr_lookup_v(ev, name@, attr@) == Option::Some(
                        ty_view(self.attrs@[i as int].2),
                    ));
                }
                let out = clone_ty(&self.attrs[i].2);
                proof {
                    assert(view_opt_res(Option::Some(Result::Ok(out))) == Option::Some(
                        Result::Ok::<TyV, ()>(ty_view(out)),
                    ));
                    assert(simple_attribute_v(*self, ty@, attr@) == Option::Some(
                        Result::Ok::<TyV, ()>(ty_view(out)),
                    ));
                    assert(self.attribute_spec(ty@, attr@) == simple_attribute_v(
                        *self,
                        ty@,
                        attr@,
                    ));
                }
                return Option::Some(Result::Ok(out));
            }
            i = i + 1;
        }
        proof {
            assert(ev.skip(self.attrs@.len() as int).len() == 0);
        }
        Option::Some(Result::Err(()))
    }

    fn subtype(&self, sub: &TyName, sup: &TyName) -> (r: bool) {
        let ghost pv = pairs_view(self.subtypes@);
        proof {
            lemma_pairs_view(self.subtypes@);
        }
        let mut i: usize = 0;
        while i < self.subtypes.len()
            invariant
                pv == pairs_view(self.subtypes@),
                pv.len() == self.subtypes@.len(),
                i <= self.subtypes.len(),
                forall|j: int| 0 <= j < self.subtypes@.len() ==> #[trigger] pv[j] == (
                    self.subtypes@[j].0@,
                    self.subtypes@[j].1@,
                ),
                forall|j: int| 0 <= j < i ==> #[trigger] pv[j] != (sub@, sup@),
            decreases self.subtypes.len() - i,
        {
            if str_eq(self.subtypes[i].0.as_str(), sub.as_str()) && str_eq(
                self.subtypes[i].1.as_str(),
                sup.as_str(),
            ) {
                proof {
                    assert(pv[i as int] == (sub@, sup@));
                }
                return true;
            }
            i = i + 1;
        }
        proof {
            if pv.contains((sub@, sup@)) {
                let j = choose|j: int| 0 <= j < pv.len() && pv[j] == (sub@, sup@);
            }
        }
        false
    }

    fn known_type(&self, name: &str) -> (r: bool) {
        let ghost nv = names_view(self.known@);
        proof {
            lemma_names_view(self.known@);
        }
        let mut i: usize = 0;
        while i < self.known.len()
            invariant
                nv == names_view(self.known@),
                nv.len() == self.known@.len(),
                i <= self.known.len(),
                forall|j: int| 0 <= j < self.known@.len() ==> #[trigger] nv[j]
                    == self.known@[j]@,
                forall|j: int| 0 <= j < i ==> #[trigger] nv[j] != name@,
            decreases self.known.len() - i,
        {
            if str_eq(self.known[i].as_str(), name) {
                proof {
                    assert(nv[i as int] == name@);
                }
                return true;
            }
            i = i + 1;
        }
        proof {
            if nv.contains(name@) {
                let j = choose|j: int| 0 <= j < nv.len() && nv[j] == name@;
            }
        }
        false
    }
}

impl OracleSimple {
    /// An oracle with empty tables.
    pub fn new() -> (r: OracleSimple)
        ensures
            attrs_view(r.attrs@) == Seq::<(Seq<char>, TypingAttrV, TyV)>::empty(),
            pairs_view(r.subtypes@) == Seq::<(Seq<char>, Seq<char>)>::empty(),
            names_view(r.known@) == Seq::<Seq<char>>::empty(),
    {
        let r = OracleSimple { attrs: Vec::new(), subtypes: Vec::new(), known: Vec::new() };
        proof {
            assert(attrs_view(r.attrs@) =~= Seq::<(Seq<char>, TypingAttrV, TyV)>::empty());
            assert(pairs_view(r.subtypes@) =~= Seq::<(Seq<char>, Seq<char>)>::empty());
            assert(names_view(r.known@) =~= Seq::<Seq<char>>::empty());
        }
        r
    }

    /// Record an attribute entry for a type name.
    pub fn add_attr(&mut self, tyname: &str, attr: TypingAttr, ty: Ty)
        ensures
            attrs_view(final(self).attrs@) == attrs_view(old(self).attrs@).push(
                (tyname@, attr@, ty@),
            ),
            final(self).subtypes == old(self).subtypes,
            final(self).known == old(self).known,
    {
        let entry = (str_to_string(tyname), attr, ty);
        proof {
            assert(self.attrs@.push(entry).drop_last() =~= self.attrs@);
            assert(attrs_view(self.attrs@.push(entry)).drop_last() =~= attrs_view(self.attrs@));
        }
        self.attrs.push(entry);
    }

    /// Record that `sub` is a subtype of `sup`.
    pub fn add_subtype(&mut self, sub: &str, sup: &str)
        ensures
            pairs_view(final(self).subtypes@) == pairs_view(old(self).subtypes@).push(
                (sub@, sup@),
            ),
            final(self).attrs == old(self).attrs,
            final(self).known == old(self).known,
    {
        let entry = (str_to_string(sub), str_to_string(sup));
        proof {
            assert(self.subtypes@.push(entry).drop_last() =~= self.subtypes@);
            assert(pairs_view(self.subtypes@.push(entry)).drop_last() =~= pairs_view(
                self.subtypes@,
            ));
        }
        self.subtypes.push(entry);
    }

    /// Record that the oracle knows the named type.
    pub fn add_known(&mut self, name: &str)
        ensures
            names_view(final(self).known@) == names_view(old(self).known@).push(name@),
            final(self).attrs == old(self).attrs,
            final(self).subtypes == old(self).subtypes,
    {
        let entry = str_to_string(name);
        proof {
            assert(self.known@.push(entry).drop_last() =~= self.known@);
            assert(names_view(self.known@.push(entry)).drop_last() =~= names_view(self.known@));
        }
        self.known.push(entry);
    }
}

} // verus!
