//! The type algebra: the [`Ty`] value representing a static type, and its
//! mathematical model [`TyV`] used in every contract.

use vstd::prelude::*;
use crate::strings::str_eq;

verus! {

/// A typing operation wasn't able to produce a precise result,
/// so made some kind of approximation.
#[derive(Debug)]
pub struct Approximation {
    /// The category of the approximation, e.g. `"Unknown type"`.
    pub category: &'static str,
    /// The precise details of this approximation, e.g. which type was unknown.
    pub message: String,
}

/// The mathematical model of an [`Approximation`].
#[verifier::ext_equal]
pub struct ApproximationV {
    pub category: Seq<char>,
    pub message: Seq<char>,
}

impl View for Approximation {
    type V = ApproximationV;

    open spec fn view(&self) -> ApproximationV {
        ApproximationV { category: self.category@, message: self.message@ }
    }
}

impl Approximation {
    /// Create a new [`Approximation`].
    pub fn new(category: &'static str, message: String) -> (r: Approximation)
        ensures
            r@ == (ApproximationV { category: category@, message: message@ }),
    {
        Approximation { category, message }
    }
}

/// A static type.
#[derive(Debug)]
pub enum Ty {
    /// Type that can't be inhabited.
    /// If an expression has this type, then the code cannot be reached.
    Never,
    /// Type that contains anything.
    Any,
    /// A series of alternative types.
    ///
    /// When typechecking, we try all alternatives, and if at least one of them
    /// succeeds, then the whole expression is considered to be a success.
    Union(TyUnion),
    /// A name, represented by `"name"` in the source language.
    /// Will never be a type that can be represented by another operation,
    /// e.g. never `"list"` because `Ty::List` could be used instead.
    Name(TyName),
    /// Iter is a type that supports iteration, only used as arguments to
    /// primitive functions. The inner type is applicable for each element.
    Iter(Box<Ty>),
    /// A list.
    List(Box<Ty>),
    /// A tuple. May be empty, to indicate the empty tuple.
    Tuple(Vec<Ty>),
    /// A dictionary, with key and value types.
    Dict(Box<(Ty, Ty)>),
    /// Custom type.
    Custom(TyCustom),
}

/// The name of an atomic type.
#[derive(Debug)]
pub struct TyName {
    pub(crate) name: String,
}

/// A series of types that are unioned together.
/// Must be at least two elements, all distinct, in ascending order,
/// with no nested union and no `Never` directly inside it.
#[derive(Debug)]
pub struct TyUnion {
    pub(crate) alternatives: Vec<Ty>,
}

/// A custom type: the extension point of the algebra, used for functions
/// and for implementation-defined types such as structs, records and enums.
#[derive(Debug)]
pub enum TyCustom {
    /// A callable with known parameters and result.
    Function(TyFunction),
    /// A type the algebra knows nothing about beyond its identity.
    Opaque(TyOpaque),
}

/// A function type.
#[derive(Debug)]
pub struct TyFunction {
    /// The `.type` attribute of this function, empty for ordinary functions.
    pub type_attr: String,
    /// The parameters of the function.
    pub params: Vec<Param>,
    /// The result type of a call.
    pub result: Box<Ty>,
}

/// A parameter of a function type.
#[derive(Debug)]
pub struct Param {
    /// How the parameter is passed.
    pub mode: ParamMode,
    /// Whether the parameter may be omitted.
    pub optional: bool,
    /// The type of the parameter.
    pub ty: Ty,
}

/// How a parameter of a function type is passed.
#[derive(Debug)]
pub enum ParamMode {
    /// Positional only.
    PosOnly,
    /// Positional or named.
    PosOrName(String),
    /// Named only.
    NameOnly(String),
    /// The `*args` parameter.
    Args,
    /// The `**kwargs` parameter.
    Kwargs,
}

/// An implementation-defined custom type, opaque to the algebra.
/// Its `kind` stands for the identity of the implementation and is the
/// stable fallback key for ordering; `name` is what [`Ty::as_name`] reports.
#[derive(Debug)]
pub struct TyOpaque {
    /// The implementation identity, e.g. `"struct"`.
    pub kind: String,
    /// The runtime type name this custom type stands for, if it has one.
    pub name: Option<String>,
}

/// The mathematical model of a [`Ty`].
#[verifier::ext_equal]
pub enum TyV {
    Never,
    Any,
    Union(Seq<TyV>),
    Name(Seq<char>),
    Iter(Box<TyV>),
    List(Box<TyV>),
    Tuple(Seq<TyV>),
    Dict(Box<TyV>, Box<TyV>),
    Custom(TyCustomV),
}

/// The mathematical model of a [`TyCustom`].
#[verifier::ext_equal]
pub enum TyCustomV {
    Function(TyFunctionV),
    Opaque(TyOpaqueV),
}

/// The mathematical model of a [`TyFunction`].
#[verifier::ext_equal]
pub struct TyFunctionV {
    pub type_attr: Seq<char>,
    pub params: Seq<ParamV>,
    pub result: Box<TyV>,
}

/// The mathematical model of a [`Param`].
#[verifier::ext_equal]
pub struct ParamV {
    pub mode: ParamModeV,
    pub optional: bool,
    pub ty: TyV,
}

/// The mathematical model of a [`ParamMode`].
#[verifier::ext_equal]
pub enum ParamModeV {
    PosOnly,
    PosOrName(Seq<char>),
    NameOnly(Seq<char>),
    Args,
    Kwargs,
}

/// The mathematical model of a [`TyOpaque`].
#[verifier::ext_equal]
pub struct TyOpaqueV {
    pub kind: Seq<char>,
    pub name: Option<Seq<char>>,
}

impl View for Ty {
    type V = TyV;

    open(crate) spec fn view(&self) -> TyV {
        ty_view(*self)
    }
}

/// The model of a [`Ty`].
pub open(crate) spec fn ty_view(t: Ty) -> TyV
    decreases t,
{
    match t {
        Ty::Never => TyV::Never,
        Ty::Any => TyV::Any,
        Ty::Union(u) => TyV::Union(seq_views_of(u.alternatives@)),
        Ty::Name(n) => TyV::Name(n.name@),
        Ty::Iter(t) => TyV::Iter(Box::new(ty_view(*t))),
        Ty::List(t) => TyV::List(Box::new(ty_view(*t))),
        Ty::Tuple(ts) => TyV::Tuple(seq_views_of(ts@)),
        Ty::Dict(kv) => TyV::Dict(Box::new(ty_view(kv.0)), Box::new(ty_view(kv.1))),
        Ty::Custom(c) => TyV::Custom(custom_view(c)),
    }
}

/// The views of the elements of a sequence of types.
pub open(crate) spec fn seq_views_of(ts: Seq<Ty>) -> Seq<TyV>
    decreases ts,
{
    if ts.len() == 0 {
        Seq::empty()
    } else {
        seq_views_of(ts.drop_last()).push(ty_view(ts.last()))
    }
}

/// The model of a [`TyCustom`].
pub open(crate) spec fn custom_view(c: TyCustom) -> TyCustomV
    decreases c,
{
    match c {
        TyCustom::Function(f) => TyCustomV::Function(function_view(f)),
        TyCustom::Opaque(o) => TyCustomV::Opaque(o@),
    }
}

/// The model of a [`TyFunction`].
pub open(crate) spec fn function_view(f: TyFunction) -> TyFunctionV
    decreases f,
{
    TyFunctionV {
        type_attr: f.type_attr@,
        params: seq_params_views_of(f.params@),
        result: Box::new(ty_view(*f.result)),
    }
}

/// The views of the elements of a sequence of parameters.
pub open(crate) spec fn seq_params_views_of(ps: Seq<Param>) -> Seq<ParamV>
    decreases ps,
{
    if ps.len() == 0 {
        Seq::empty()
    } else {
        seq_params_views_of(ps.drop_last()).push(param_view(ps.last()))
    }
}

/// The model of a [`Param`].
pub open(crate) spec fn param_view(p: Param) -> ParamV
    decreases p,
{
    ParamV { mode: p.mode@, optional: p.optional, ty: ty_view(p.ty) }
}

impl View for TyCustom {
    type V = TyCustomV;

    open spec fn view(&self) -> TyCustomV {
        custom_view(*self)
    }
}

impl View for TyFunction {
    type V = TyFunctionV;

    open spec fn view(&self) -> TyFunctionV {
        function_view(*self)
    }
}

impl View for Param {
    type V = ParamV;

    open spec fn view(&self) -> ParamV {
        param_view(*self)
    }
}

impl View for ParamMode {
    type V = ParamModeV;

    open spec fn view(&self) -> ParamModeV {
        match self {
            ParamMode::PosOnly => ParamModeV::PosOnly,
            ParamMode::PosOrName(n) => ParamModeV::PosOrName(n@),
            ParamMode::NameOnly(n) => ParamModeV::NameOnly(n@),
            ParamMode::Args => ParamModeV::Args,
            ParamMode::Kwargs => ParamModeV::Kwargs,
        }
    }
}

impl View for TyOpaque {
    type V = TyOpaqueV;

    open spec fn view(&self) -> TyOpaqueV {
        TyOpaqueV {
            kind: self.kind@,
            name: match &self.name {
                Option::Some(n) => Option::Some(n@),
                Option::None => Option::None,
            },
        }
    }
}

impl TyName {
    /// Get the underlying `str` for a `TyName`.
    pub fn as_str(&self) -> (r: &str)
        ensures
            r@ == self@,
    {
        self.name.as_str()
    }
}

impl View for TyName {
    type V = Seq<char>;

    open(crate) spec fn view(&self) -> Seq<char> {
        self.name@
    }
}

impl TyUnion {
    /// The alternatives within a union, always at least two elements.
    pub fn alternatives(&self) -> (r: &Vec<Ty>)
        ensures
            seq_views_of(r@) == self@,
    {
        &self.alternatives
    }
}

impl View for TyUnion {
    type V = Seq<TyV>;

    open(crate) spec fn view(&self) -> Seq<TyV> {
        seq_views_of(self.alternatives@)
    }
}

/// The view of an optional string slice.
pub open spec fn view_opt_str(r: Option<&str>) -> Option<Seq<char>> {
    match r {
        Option::Some(s) => Option::Some(s@),
        Option::None => Option::None,
    }
}

/// `seq_views_of` maps the view over the elements.
pub broadcast proof fn lemma_seq_views_of(ts: Seq<Ty>)
    ensures
        #[trigger] seq_views_of(ts).len() == ts.len(),
        forall|i: int| 0 <= i < ts.len() ==> seq_views_of(ts)[i] == ty_view(ts[i]),
    decreases ts.len(),
{
    if ts.len() > 0 {
        lemma_seq_views_of(ts.drop_last());
    }
}

/// `seq_params_views_of` maps the view over the elements.
pub broadcast proof fn lemma_seq_params_views_of(ps: Seq<Param>)
    ensures
        #[trigger] seq_params_views_of(ps).len() == ps.len(),
        forall|i: int| 0 <= i < ps.len() ==> seq_params_views_of(ps)[i] == param_view(ps[i]),
    decreases ps.len(),
{
    if ps.len() > 0 {
        lemma_seq_params_views_of(ps.drop_last());
    }
}

/// The number of nodes in a type: the termination measure for the
/// normalisation of unions.
pub open spec fn size_v(t: TyV) -> nat
    decreases t,
{
    match t {
        TyV::Never => 1,
        TyV::Any => 1,
        TyV::Union(ms) => 1 + seq_size_v(ms),
        TyV::Name(_) => 1,
        TyV::Iter(x) => 1 + size_v(*x),
        TyV::List(x) => 1 + size_v(*x),
        TyV::Tuple(ts) => 1 + seq_size_v(ts),
        TyV::Dict(k, v) => 1 + size_v(*k) + size_v(*v),
        TyV::Custom(_) => 1,
    }
}

/// The total number of nodes in a sequence of types.
pub open spec fn seq_size_v(ts: Seq<TyV>) -> nat
    decreases ts,
{
    if ts.len() == 0 {
        0
    } else {
        seq_size_v(ts.drop_last()) + size_v(ts.last())
    }
}

/// The alternatives of a union, a singleton for a plain type,
/// and nothing for `Never`.
pub open spec fn iter_union_v(t: TyV) -> Seq<TyV> {
    match t {
        TyV::Union(ms) => ms,
        TyV::Never => Seq::empty(),
        _ => seq![t],
    }
}

/// What [`Ty::as_name`] reports, on the model.
pub open spec fn as_name_v(t: TyV) -> Option<Seq<char>> {
    match t {
        TyV::Name(s) => Option::Some(s),
        TyV::List(_) => Option::Some("list"@),
        TyV::Tuple(_) => Option::Some("tuple"@),
        TyV::Dict(_, _) => Option::Some("dict"@),
        TyV::Never => Option::Some("never"@),
        TyV::Custom(TyCustomV::Function(_)) => Option::Some("function"@),
        TyV::Custom(TyCustomV::Opaque(o)) => o.name,
        _ => Option::None,
    }
}

impl Clone for Ty {
    fn clone(&self) -> (r: Ty)
        ensures
            r@ == self@,
    {
        clone_ty(self)
    }
}

/// A structural copy of a type.
pub fn clone_ty(t: &Ty) -> (r: Ty)
    ensures
        r@ == t@,
    decreases t,
{
    match t {
        Ty::Never => Ty::Never,
        Ty::Any => Ty::Any,
        Ty::Union(u) => {
            let alts = clone_tys(&u.alternatives);
            let out = Ty::Union(TyUnion { alternatives: alts });
            proof {
                assert(ty_view(out) == TyV::Union(seq_views_of(alts@)));
                assert(ty_view(*t) == TyV::Union(seq_views_of(u.alternatives@)));
            }
            out
        },
        Ty::Name(n) => Ty::Name(TyName { name: n.name.clone() }),
        Ty::Iter(x) => Ty::Iter(Box::new(clone_ty(x))),
        Ty::List(x) => Ty::List(Box::new(clone_ty(x))),
        Ty::Tuple(ts) => Ty::Tuple(clone_tys(ts)),
        Ty::Dict(kv) => Ty::Dict(Box::new((clone_ty(&kv.0), clone_ty(&kv.1)))),
        Ty::Custom(c) => Ty::Custom(clone_custom(c)),
    }
}

/// A structural copy of a vector of types.
pub fn clone_tys(ts: &Vec<Ty>) -> (r: Vec<Ty>)
    ensures
        seq_views_of(r@) == seq_views_of(ts@),
    decreases ts,
{
    let mut r: Vec<Ty> = Vec::new();
    let mut i: usize = 0;
    while i < ts.len()
        invariant
            i <= ts.len(),
            seq_views_of(r@) =~= seq_views_of(ts@).subrange(0, i as int),
        decreases ts.len() - i,
    {
        let c = clone_ty(&ts[i]);
        proof {
            lemma_seq_views_of(ts@);
            lemma_seq_views_of(r@);
            lemma_seq_views_of(r@.push(c));
        }
        r.push(c);
        i = i + 1;
        proof {
            lemma_seq_views_of(r@);
            lemma_seq_views_of(ts@);
            assert(seq_views_of(r@) =~= seq_views_of(ts@).subrange(0, i as int));
        }
    }
    proof {
        lemma_seq_views_of(ts@);
        assert(seq_views_of(ts@).subrange(0, ts@.len() as int) =~= seq_views_of(ts@));
    }
    r
}

/// A structural copy of a custom type.
fn clone_custom(c: &TyCustom) -> (r: TyCustom)
    ensures
        custom_view(r) == custom_view(*c),
    decreases c,
{
    match c {
        TyCustom::Function(f) => TyCustom::Function(clone_function(f)),
        TyCustom::Opaque(o) => TyCustom::Opaque(
            TyOpaque {
                kind: o.kind.clone(),
                name: match &o.name {
                    Option::Some(n) => Option::Some(n.clone()),
                    Option::None => Option::None,
                },
            },
        ),
    }
}

/// A structural copy of a function type.
fn clone_function(f: &TyFunction) -> (r: TyFunction)
    ensures
        function_view(r) == function_view(*f),
    decreases f,
{
    let mut params: Vec<Param> = Vec::new();
    let mut i: usize = 0;
    while i < f.params.len()
        invariant
            i <= f.params.len(),
            seq_params_views_of(params@) =~= seq_params_views_of(f.params@).subrange(0, i as int),
        decreases f.params.len() - i,
    {
        let p = &f.params[i];
        let mode = match &p.mode {
            ParamMode::PosOnly => ParamMode::PosOnly,
            ParamMode::PosOrName(n) => ParamMode::PosOrName(n.clone()),
            ParamMode::NameOnly(n) => ParamMode::NameOnly(n.clone()),
            ParamMode::Args => ParamMode::Args,
            ParamMode::Kwargs => ParamMode::Kwargs,
        };
        let c = Param { mode, optional: p.optional, ty: clone_ty(&p.ty) };
        proof {
            lemma_seq_params_views_of(f.params@);
            lemma_seq_params_views_of(params@);
            lemma_seq_params_views_of(params@.push(c));
        }
        params.push(c);
        i = i + 1;
        proof {
            lemma_seq_params_views_of(params@);
            lemma_seq_params_views_of(f.params@);
            assert(seq_params_views_of(params@) =~= seq_params_views_of(f.params@).subrange(
                0,
                i as int,
            ));
        }
    }
    let ta = f.type_attr.clone();
    let res = clone_ty(&f.result);
    let out = TyFunction { type_attr: ta, params, result: Box::new(res) };
    proof {
        lemma_seq_params_views_of(f.params@);
        assert(seq_params_views_of(f.params@).subrange(0, f.params@.len() as int)
            =~= seq_params_views_of(f.params@));
        assert(function_view(out) =~= function_view(*f));
    }
    out
}



/// Two character sequences differing in length or in their first character
/// are different.
pub proof fn lemma_chars_ne(a: Seq<char>, b: Seq<char>)
    requires
        a.len() != b.len() || (a.len() > 0 && b.len() > 0 && a[0] != b[0]),
    ensures
        a != b,
{
}

/// Two character sequences differing at some index are different.
pub proof fn lemma_chars_ne_at(a: Seq<char>, b: Seq<char>, i: int)
    requires
        a.len() != b.len() || (0 <= i < a.len() && i < b.len() && a[i] != b[i]),
    ensures
        a != b,
{
}

/// One unfolding of the view of a custom type.
pub broadcast proof fn lemma_view_custom(c: TyCustom)
    ensures
        #[trigger] ty_view(Ty::Custom(c)) == TyV::Custom(custom_view(c)),
{
}

/// One unfolding of the view of a function custom type.
pub broadcast proof fn lemma_view_custom_function(f: TyFunction)
    ensures
        #[trigger] custom_view(TyCustom::Function(f)) == TyCustomV::Function(function_view(f)),
{
}

/// One unfolding of the view of an opaque custom type.
pub broadcast proof fn lemma_view_custom_opaque(o: TyOpaque)
    ensures
        #[trigger] custom_view(TyCustom::Opaque(o)) == TyCustomV::Opaque(o@),
{
}

/// One unfolding of the view of a function type.
pub broadcast proof fn lemma_view_function(f: TyFunction)
    ensures
        #[trigger] function_view(f) == (TyFunctionV {
            type_attr: f.type_attr@,
            params: seq_params_views_of(f.params@),
            result: Box::new(ty_view(*f.result)),
        }),
{
}

/// One unfolding of the view of a parameter.
pub broadcast proof fn lemma_view_param(p: Param)
    ensures
        #[trigger] param_view(p) == (ParamV {
            mode: p.mode@,
            optional: p.optional,
            ty: ty_view(p.ty),
        }),
{
}

/// The views of the plain variants.
pub proof fn lemma_view_atoms()
    ensures
        ty_view(Ty::Any) == TyV::Any,
        ty_view(Ty::Never) == TyV::Never,
{
}

/// The function type that the name `"function"` stands for: any arguments,
/// any result.
pub open spec fn any_function_v() -> TyV {
    TyV::Custom(
        TyCustomV::Function(
            TyFunctionV {
                type_attr: Seq::empty(),
                params: seq![
                    ParamV { mode: ParamModeV::Args, optional: false, ty: TyV::Any },
                    ParamV { mode: ParamModeV::Kwargs, optional: false, ty: TyV::Any },
                ],
                result: Box::new(TyV::Any),
            },
        ),
    )
}

/// The custom type that the name `"struct"` stands for: a struct about
/// which nothing more is known.
pub open spec fn any_struct_v() -> TyV {
    TyV::Custom(
        TyCustomV::Opaque(TyOpaqueV { kind: "struct"@, name: Option::Some("struct"@) }),
    )
}

/// What [`Ty::name`] builds from a name, on the model: the names of the
/// structural variants build those variants, everything else a `Name`.
pub open spec fn name_v(s: Seq<char>) -> TyV {
    if s == "list"@ {
        TyV::List(Box::new(TyV::Any))
    } else if s == "dict"@ {
        TyV::Dict(Box::new(TyV::Any), Box::new(TyV::Any))
    } else if s == "function"@ {
        any_function_v()
    } else if s == "struct"@ {
        any_struct_v()
    } else if s == "never"@ {
        TyV::Never
    } else {
        TyV::Name(s)
    }
}

impl Param {
    /// A positional-only parameter.
    pub fn pos_only(ty: Ty) -> (r: Param)
        ensures
            r@ == (ParamV { mode: ParamModeV::PosOnly, optional: false, ty: ty@ }),
    {
        Param { mode: ParamMode::PosOnly, optional: false, ty }
    }

    /// A parameter passed by position or by name.
    pub fn pos_or_name(name: &str, ty: Ty) -> (r: Param)
        ensures
            r@ == (ParamV { mode: ParamModeV::PosOrName(name@), optional: false, ty: ty@ }),
    {
        Param { mode: ParamMode::PosOrName(crate::strings::str_to_string(name)), optional: false, ty }
    }

    /// A parameter passed by name only.
    pub fn name_only(name: &str, ty: Ty) -> (r: Param)
        ensures
            r@ == (ParamV { mode: ParamModeV::NameOnly(name@), optional: false, ty: ty@ }),
    {
        Param { mode: ParamMode::NameOnly(crate::strings::str_to_string(name)), optional: false, ty }
    }

    /// The `*args` parameter.
    pub fn args(ty: Ty) -> (r: Param)
        ensures
            r@ == (ParamV { mode: ParamModeV::Args, optional: false, ty: ty@ }),
    {
        Param { mode: ParamMode::Args, optional: false, ty }
    }

    /// The `**kwargs` parameter.
    pub fn kwargs(ty: Ty) -> (r: Param)
        ensures
            r@ == (ParamV { mode: ParamModeV::Kwargs, optional: false, ty: ty@ }),
    {
        Param { mode: ParamMode::Kwargs, optional: false, ty }
    }

    /// This parameter, made optional.
    pub fn optional(self) -> (r: Param)
        ensures
            r@ == (ParamV { mode: self@.mode, optional: true, ty: self@.ty }),
    {
        Param { mode: self.mode, optional: true, ty: self.ty }
    }
}

impl Ty {
    /// Create a [`Ty::Any`], but tagged in such a way it can easily be found.
    pub fn todo() -> (r: Ty)
        ensures
            r@ == TyV::Any,
    {
        Ty::Any
    }

    /// Create a [`Ty::Name`], or one of the standard types for the names
    /// that stand for structural variants.
    pub fn name(name: &str) -> (r: Ty)
        ensures
            r@ == name_v(name@),
    {
        if str_eq(name, "list") {
            Ty::List(Box::new(Ty::Any))
        } else if str_eq(name, "dict") {
            Ty::Dict(Box::new((Ty::Any, Ty::Any)))
        } else if str_eq(name, "function") {
            let mut params: Vec<Param> = Vec::new();
            params.push(Param::args(Ty::Any));
            params.push(Param::kwargs(Ty::Any));
            let ghost pv = params@;
            let f = TyFunction { type_attr: String::new(), params, result: Box::new(Ty::Any) };
            let ghost fv = f;
            let r = Ty::Custom(TyCustom::Function(f));
            proof {
                lemma_view_atoms();
                lemma_view_custom(TyCustom::Function(fv));
                lemma_view_custom_function(fv);
                lemma_view_function(fv);
                lemma_seq_params_views_of(pv);
                lemma_view_param(pv[0]);
                lemma_view_param(pv[1]);
                assert(seq_params_views_of(pv) =~= seq![
                    ParamV { mode: ParamModeV::Args, optional: false, ty: TyV::Any },
                    ParamV { mode: ParamModeV::Kwargs, optional: false, ty: TyV::Any },
                ]);
                assert(r@ =~= any_function_v());
            }
            r
        } else if str_eq(name, "struct") {
            let o = TyOpaque {
                kind: crate::strings::str_to_string("struct"),
                name: Option::Some(crate::strings::str_to_string("struct")),
            };
            let ghost ov = o;
            let r = Ty::Custom(TyCustom::Opaque(o));
            proof {
                lemma_view_custom(TyCustom::Opaque(ov));
                lemma_view_custom_opaque(ov);
                assert(r@ =~= any_struct_v());
            }
            r
        } else if str_eq(name, "never") {
            Ty::Never
        } else {
            Ty::Name(TyName { name: crate::strings::str_to_string(name) })
        }
    }

    /// Turn a type back into a name, potentially erasing some structure.
    /// E.g. the type `[bool]` would report `list`.
    /// Types like [`Ty::Any`] report `None`.
    pub fn as_name(&self) -> (r: Option<&str>)
        ensures
            view_opt_str(r) == as_name_v(self@),
    {
        proof {
            reveal_with_fuel(ty_view, 2);
            reveal_with_fuel(custom_view, 2);
        }
        match self {
            Ty::Name(x) => Option::Some(x.as_str()),
            Ty::List(_) => Option::Some("list"),
            Ty::Tuple(_) => Option::Some("tuple"),
            Ty::Dict(_) => Option::Some("dict"),
            Ty::Never => Option::Some("never"),
            Ty::Custom(TyCustom::Function(_)) => Option::Some("function"),
            Ty::Custom(TyCustom::Opaque(o)) => match &o.name {
                Option::Some(n) => Option::Some(n.as_str()),
                Option::None => Option::None,
            },
            _ => Option::None,
        }
    }

    /// Create a `None` type.
    pub fn none() -> (r: Ty)
        ensures
            r@ == TyV::Name("NoneType"@),
    {
        let r = Self::name("NoneType");
        proof {
            reveal_strlit("NoneType");
            reveal_strlit("list");
            reveal_strlit("dict");
            reveal_strlit("function");
            reveal_strlit("struct");
            reveal_strlit("never");
            lemma_chars_ne("NoneType"@, "list"@);
            lemma_chars_ne("NoneType"@, "dict"@);
            lemma_chars_ne("NoneType"@, "function"@);
            lemma_chars_ne("NoneType"@, "struct"@);
            lemma_chars_ne("NoneType"@, "never"@);
        }
        r
    }

    /// Create a boolean type.
    pub fn bool() -> (r: Ty)
        ensures
            r@ == TyV::Name("bool"@),
    {
        let r = Self::name("bool");
        proof {
            reveal_strlit("bool");
            reveal_strlit("list");
            reveal_strlit("dict");
            reveal_strlit("function");
            reveal_strlit("struct");
            reveal_strlit("never");
            lemma_chars_ne("bool"@, "list"@);
            lemma_chars_ne("bool"@, "dict"@);
            lemma_chars_ne("bool"@, "function"@);
            lemma_chars_ne("bool"@, "struct"@);
            lemma_chars_ne("bool"@, "never"@);
        }
        r
    }

    /// Create the int type.
    pub fn int_ty() -> (r: Ty)
        ensures
            r@ == TyV::Name("int"@),
    {
        let r = Self::name("int");
        proof {
            reveal_strlit("int");
            reveal_strlit("list");
            reveal_strlit("dict");
            reveal_strlit("function");
            reveal_strlit("struct");
            reveal_strlit("never");
            lemma_chars_ne("int"@, "list"@);
            lemma_chars_ne("int"@, "dict"@);
            lemma_chars_ne("int"@, "function"@);
            lemma_chars_ne("int"@, "struct"@);
            lemma_chars_ne("int"@, "never"@);
        }
        r
    }

    /// Create a float type.
    pub fn float() -> (r: Ty)
        ensures
            r@ == TyV::Name("float"@),
    {
        let r = Self::name("float");
        proof {
            reveal_strlit("float");
            reveal_strlit("list");
            reveal_strlit("dict");
            reveal_strlit("function");
            reveal_strlit("struct");
            reveal_strlit("never");
            lemma_chars_ne("float"@, "list"@);
            lemma_chars_ne("float"@, "dict"@);
            lemma_chars_ne("float"@, "function"@);
            lemma_chars_ne("float"@, "struct"@);
            lemma_chars_ne("float"@, "never"@);
        }
        r
    }

    /// Create a string type.
    pub fn string() -> (r: Ty)
        ensures
            r@ == TyV::Name("string"@),
    {
        let r = Self::name("string");
        proof {
            reveal_strlit("string");
            reveal_strlit("list");
            reveal_strlit("dict");
            reveal_strlit("function");
            reveal_strlit("struct");
            reveal_strlit("never");
            lemma_chars_ne("string"@, "list"@);
            lemma_chars_ne("string"@, "dict"@);
            lemma_chars_ne("string"@, "function"@);
            lemma_chars_ne_at("string"@, "struct"@, 3);
            lemma_chars_ne("string"@, "never"@);
        }
        r
    }

    /// Create a list type.
    pub fn list(element: Ty) -> (r: Ty)
        ensures
            r@ == TyV::List(Box::new(element@)),
    {
        Ty::List(Box::new(element))
    }

    /// Create an iterable type.
    pub fn iter(item: Ty) -> (r: Ty)
        ensures
            r@ == TyV::Iter(Box::new(item@)),
    {
        Ty::Iter(Box::new(item))
    }

    /// Create a dictionary type.
    pub fn dict(key: Ty, value: Ty) -> (r: Ty)
        ensures
            r@ == TyV::Dict(Box::new(key@), Box::new(value@)),
    {
        Ty::Dict(Box::new((key, value)))
    }

    /// Create a tuple of two elements.
    pub fn tuple2(a: Ty, b: Ty) -> (r: Ty)
        ensures
            r@ == TyV::Tuple(seq![a@, b@]),
    {
        let ghost av = a@;
        let ghost bv = b@;
        let mut ts: Vec<Ty> = Vec::new();
        ts.push(a);
        ts.push(b);
        let r = Ty::Tuple(ts);
        proof {
            lemma_seq_views_of(ts@);
            assert(seq_views_of(ts@) =~= seq![av, bv]);
        }
        r
    }

    /// Create a function type.
    pub fn function(params: Vec<Param>, result: Ty) -> (r: Ty)
        ensures
            r@ == TyV::Custom(
                TyCustomV::Function(
                    TyFunctionV {
                        type_attr: Seq::empty(),
                        params: seq_params_views_of(params@),
                        result: Box::new(result@),
                    },
                ),
            ),
    {
        let ghost pv = params@;
        let ghost rv = result;
        let f = TyFunction { type_attr: String::new(), params, result: Box::new(result) };
        let ghost fv = f;
        let r = Ty::Custom(TyCustom::Function(f));
        proof {
            lemma_view_custom(TyCustom::Function(fv));
            lemma_view_custom_function(fv);
            lemma_view_function(fv);
        }
        r
    }

    /// Create a function whose `.type` attribute is the given string.
    pub fn ctor_function(type_attr: &str, params: Vec<Param>, result: Ty) -> (r: Ty)
        ensures
            r@ == TyV::Custom(
                TyCustomV::Function(
                    TyFunctionV {
                        type_attr: type_attr@,
                        params: seq_params_views_of(params@),
                        result: Box::new(result@),
                    },
                ),
            ),
    {
        let f = TyFunction {
            type_attr: crate::strings::str_to_string(type_attr),
            params,
            result: Box::new(result),
        };
        let ghost fv = f;
        let r = Ty::Custom(TyCustom::Function(f));
        proof {
            lemma_view_custom(TyCustom::Function(fv));
            lemma_view_custom_function(fv);
            lemma_view_function(fv);
        }
        r
    }

    /// Create a custom type.
    pub fn custom(t: TyCustom) -> (r: Ty)
        ensures
            r@ == TyV::Custom(t@),
    {
        Ty::Custom(t)
    }

    /// Create a custom function type.
    pub fn custom_function(f: TyFunction) -> (r: Ty)
        ensures
            r@ == TyV::Custom(TyCustomV::Function(f@)),
    {
        let ghost fv = f;
        let r = Ty::Custom(TyCustom::Function(f));
        proof {
            lemma_view_custom(TyCustom::Function(fv));
            lemma_view_custom_function(fv);
        }
        r
    }

    /// Whether this type is `Any`.
    pub fn is_any(&self) -> (r: bool)
        ensures
            r == (self@ == TyV::Any),
    {
        match self {
            Ty::Any => true,
            _ => false,
        }
    }

    /// Whether this type is `Never`.
    pub fn is_never(&self) -> (r: bool)
        ensures
            r == (self@ == TyV::Never),
    {
        match self {
            Ty::Never => true,
            _ => false,
        }
    }

    /// Whether this type is a list.
    pub fn is_list(&self) -> (r: bool)
        ensures
            r == (self@ is List),
    {
        match self {
            Ty::List(_) => true,
            _ => false,
        }
    }

    /// Whether this type is exactly the given name.
    pub fn is_name(&self, name: &str) -> (r: bool)
        ensures
            r == (self@ == TyV::Name(name@)),
    {
        match self {
            Ty::Name(x) => str_eq(x.as_str(), name),
            _ => false,
        }
    }
}


/// A structural copy of a parameter.
pub fn clone_param(p: &Param) -> (r: Param)
    ensures
        param_view(r) == param_view(*p),
{
    let mode = match &p.mode {
        ParamMode::PosOnly => ParamMode::PosOnly,
        ParamMode::PosOrName(n) => ParamMode::PosOrName(n.clone()),
        ParamMode::NameOnly(n) => ParamMode::NameOnly(n.clone()),
        ParamMode::Args => ParamMode::Args,
        ParamMode::Kwargs => ParamMode::Kwargs,
    };
    Param { mode, optional: p.optional, ty: clone_ty(&p.ty) }
}

} // verus!
