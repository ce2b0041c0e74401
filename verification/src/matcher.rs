//! The runtime type-annotation compiler: a user-supplied annotation value
//! (a string, `None`, or a nesting of lists, tuples and single-entry
//! dictionaries of annotations) is compiled once into a reusable matcher,
//! a pure predicate over runtime values used for call-time argument and
//! return checking.

use vstd::prelude::*;
use vstd::string::StrSliceExecFns;
use crate::strings::{str_eq, str_to_string};
use crate::values::{
    display_rt_v, lemma_rt_pairs_view, lemma_rt_seq_view, rt_pairs_view, rt_seq_view,
    rt_type_name_v, rt_view, RtValue, RtValueV,
};

verus! {

/// A runtime annotation error.
#[derive(Debug)]
pub enum TypingError {
    /// The value does not have the annotated type: the value's rendering,
    /// its runtime type, the annotation's rendering, and what was checked
    /// (a parameter or the return type).
    TypeAnnotationMismatch(String, String, String, String),
    /// The given annotation value does not represent a type.
    InvalidTypeAnnotation(String),
    /// The given annotation does not represent a type, but the value has a
    /// `.type` attribute the user may have meant to quote.
    PerhapsYouMeant(String, String),
}

/// The mathematical model of a runtime annotation error.
#[verifier::ext_equal]
pub enum TypingErrorMV {
    TypeAnnotationMismatch(Seq<char>, Seq<char>, Seq<char>, Seq<char>),
    InvalidTypeAnnotation(Seq<char>),
    PerhapsYouMeant(Seq<char>, Seq<char>),
}

impl View for TypingError {
    type V = TypingErrorMV;

    open spec fn view(&self) -> TypingErrorMV {
        match self {
            TypingError::TypeAnnotationMismatch(a, b, c, d) =>
                TypingErrorMV::TypeAnnotationMismatch(a@, b@, c@, d@),
            TypingError::InvalidTypeAnnotation(a) => TypingErrorMV::InvalidTypeAnnotation(a@),
            TypingError::PerhapsYouMeant(a, b) => TypingErrorMV::PerhapsYouMeant(a@, b@),
        }
    }
}

/// The user-facing message of a runtime annotation error.
pub open spec fn rt_error_message_v(e: TypingErrorMV) -> Seq<char> {
    match e {
        TypingErrorMV::TypeAnnotationMismatch(value, typ, annot, what) => "Value `"@ + value
            + "` of type `"@ + typ + "` does not match the type annotation `"@ + annot
            + "` for "@ + what,
        TypingErrorMV::InvalidTypeAnnotation(t) => "Type `"@ + t
            + "` is not a valid type annotation"@,
        TypingErrorMV::PerhapsYouMeant(t, name) => "Found `"@ + t
            + "` instead of a valid type annotation. Perhaps you meant `\""@ + name + "\"`?"@,
    }
}

impl TypingError {
    /// The user-facing message of this error.
    pub fn message(&self) -> (r: String)
        ensures
            r@ == rt_error_message_v(self@),
    {
        match self {
            TypingError::TypeAnnotationMismatch(value, typ, annot, what) => {
                let mut r = str_to_string("Value `");
                r.append(value.as_str());
                r.append("` of type `");
                r.append(typ.as_str());
                r.append("` does not match the type annotation `");
                r.append(annot.as_str());
                r.append("` for ");
                r.append(what.as_str());
                r
            },
            TypingError::InvalidTypeAnnotation(t) => {
                let mut r = str_to_string("Type `");
                r.append(t.as_str());
                r.append("` is not a valid type annotation");
                r
            },
            TypingError::PerhapsYouMeant(t, name) => {
                let mut r = str_to_string("Found `");
                r.append(t.as_str());
                r.append("` instead of a valid type annotation. Perhaps you meant `\"");
                r.append(name.as_str());
                r.append("\"`?");
                r
            },
        }
    }
}

/// A compiled type annotation: a reusable, side-effect-free predicate over
/// runtime values.
#[derive(Debug)]
pub enum TypeCompiled {
    /// Matches everything: a wildcard annotation.
    Anything,
    /// Matches `None`.
    IsNone,
    /// Matches strings, native or self-reported.
    IsString,
    /// Matches integers, native or self-reported.
    IsInt,
    /// Matches booleans, native or self-reported.
    IsBool,
    /// Matches values whose runtime type name is the given one.
    Concrete(String),
    /// Matches any list, without looking at the elements.
    IsList,
    /// Matches lists all of whose elements match.
    ListOf(Box<TypeCompiled>),
    /// Matches when either matcher does: the two-alternative fast path.
    AnyOfTwo(Box<TypeCompiled>, Box<TypeCompiled>),
    /// Matches when any matcher does.
    AnyOf(Vec<TypeCompiled>),
    /// Matches any dictionary, without looking at the entries.
    IsDict,
    /// Matches dictionaries all of whose keys and values match.
    DictOf(Box<TypeCompiled>, Box<TypeCompiled>),
    /// Matches tuples of the same arity, each component matching.
    TupleOf(Vec<TypeCompiled>),
}

/// The mathematical model of a [`TypeCompiled`].
#[verifier::ext_equal]
pub enum MatcherV {
    Anything,
    IsNone,
    IsString,
    IsInt,
    IsBool,
    Concrete(Seq<char>),
    IsList,
    ListOf(Box<MatcherV>),
    AnyOfTwo(Box<MatcherV>, Box<MatcherV>),
    AnyOf(Seq<MatcherV>),
    IsDict,
    DictOf(Box<MatcherV>, Box<MatcherV>),
    TupleOf(Seq<MatcherV>),
}

impl View for TypeCompiled {
    type V = MatcherV;

    open(crate) spec fn view(&self) -> MatcherV {
        matcher_view(*self)
    }
}

/// The model of a compiled matcher.
pub open(crate) spec fn matcher_view(m: TypeCompiled) -> MatcherV
    decreases m,
{
    match m {
        TypeCompiled::Anything => MatcherV::Anything,
        TypeCompiled::IsNone => MatcherV::IsNone,
        TypeCompiled::IsString => MatcherV::IsString,
        TypeCompiled::IsInt => MatcherV::IsInt,
        TypeCompiled::IsBool => MatcherV::IsBool,
        TypeCompiled::Concrete(t) => MatcherV::Concrete(t@),
        TypeCompiled::IsList => MatcherV::IsList,
        TypeCompiled::ListOf(t) => MatcherV::ListOf(Box::new(matcher_view(*t))),
        TypeCompiled::AnyOfTwo(a, b) => MatcherV::AnyOfTwo(
            Box::new(matcher_view(*a)),
            Box::new(matcher_view(*b)),
        ),
        TypeCompiled::AnyOf(ts) => MatcherV::AnyOf(matcher_seq_view(ts@)),
        TypeCompiled::IsDict => MatcherV::IsDict,
        TypeCompiled::DictOf(k, v) => MatcherV::DictOf(
            Box::new(matcher_view(*k)),
            Box::new(matcher_view(*v)),
        ),
        TypeCompiled::TupleOf(ts) => MatcherV::TupleOf(matcher_seq_view(ts@)),
    }
}

/// The models of the elements of a vector of matchers.
pub open(crate) spec fn matcher_seq_view(ms: Seq<TypeCompiled>) -> Seq<MatcherV>
    decreases ms,
{
    if ms.len() == 0 {
        Seq::empty()
    } else {
        matcher_seq_view(ms.drop_last()).push(matcher_view(ms.last()))
    }
}

/// `matcher_seq_view` maps the view over the elements.
pub broadcast proof fn lemma_matcher_seq_view(ms: Seq<TypeCompiled>)
    ensures
        #[trigger] matcher_seq_view(ms).len() == ms.len(),
        forall|i: int| 0 <= i < ms.len() ==> matcher_seq_view(ms)[i] == matcher_view(ms[i]),
    decreases ms.len(),
{
    if ms.len() > 0 {
        lemma_matcher_seq_view(ms.drop_last());
    }
}

/// Whether a matcher accepts a value.  A pure predicate: matching has no
/// side effects and no diagnostic output.
pub open spec fn matches_v(m: MatcherV, v: RtValueV) -> bool
    decreases m, v, 1int,
{
    match m {
        MatcherV::Anything => true,
        MatcherV::IsNone => v is NoneV,
        MatcherV::IsString => v is Str || (v is Opaque && rt_type_name_v(v) == "string"@),
        MatcherV::IsInt => v is Int || (v is Opaque && rt_type_name_v(v) == "int"@),
        MatcherV::IsBool => v is Bool || (v is Opaque && rt_type_name_v(v) == "bool"@),
        MatcherV::Concrete(t) => rt_type_name_v(v) == t,
        MatcherV::IsList => v is List,
        MatcherV::ListOf(t) => match v {
            RtValueV::List(es) => all_match_v(*t, es),
            _ => false,
        },
        MatcherV::AnyOfTwo(a, b) => matches_v(*a, v) || matches_v(*b, v),
        MatcherV::AnyOf(ts) => any_match_v(ts, v),
        MatcherV::IsDict => v is Dict,
        MatcherV::DictOf(k, val) => match v {
            RtValueV::Dict(ps) => pairs_match_v(m, ps),
            _ => false,
        },
        MatcherV::TupleOf(ts) => match v {
            RtValueV::Tuple(es) => ts.len() == es.len() && zip_match_v(ts, es),
            _ => false,
        },
    }
}

/// Whether every element matches.
pub open spec fn all_match_v(t: MatcherV, es: Seq<RtValueV>) -> bool
    decreases t, es, 0int,
{
    if es.len() == 0 {
        true
    } else {
        matches_v(t, es[0]) && all_match_v(t, es.drop_first())
    }
}

/// Whether any matcher accepts the value.
pub open spec fn any_match_v(ts: Seq<MatcherV>, v: RtValueV) -> bool
    decreases ts, v, 0int,
{
    if ts.len() == 0 {
        false
    } else {
        matches_v(ts[0], v) || any_match_v(ts.drop_first(), v)
    }
}

/// Whether, for a dictionary-of matcher, every key matches its key matcher
/// and every value its value matcher.
pub open spec fn pairs_match_v(m: MatcherV, ps: Seq<(RtValueV, RtValueV)>) -> bool
    decreases m, ps, 0int,
{
    match m {
        MatcherV::DictOf(k, val) => if ps.len() == 0 {
            true
        } else {
            matches_v(*k, ps[0].0) && matches_v(*val, ps[0].1) && pairs_match_v(
                m,
                ps.drop_first(),
            )
        },
        _ => true,
    }
}

/// Whether each component matches positionally.
pub open spec fn zip_match_v(ts: Seq<MatcherV>, es: Seq<RtValueV>) -> bool
    decreases ts, es, 0int,
{
    if ts.len() == 0 || es.len() == 0 {
        true
    } else {
        matches_v(ts[0], es[0]) && zip_match_v(ts.drop_first(), es.drop_first())
    }
}

/// Whether an annotation string is a wildcard: empty, or starting with an
/// underscore.
pub open spec fn is_wildcard_v(s: Seq<char>) -> bool {
    s.len() == 0 || s[0] == '_'
}

/// Whether an annotation value is a wildcard string.
pub open spec fn is_wildcard_value_v(v: RtValueV) -> bool {
    match v {
        RtValueV::Str(s) => is_wildcard_v(s),
        _ => false,
    }
}

/// What a string annotation compiles to.
pub open spec fn from_str_v(s: Seq<char>) -> MatcherV {
    if is_wildcard_v(s) {
        MatcherV::Anything
    } else if s == "string"@ {
        MatcherV::IsString
    } else if s == "int"@ {
        MatcherV::IsInt
    } else if s == "bool"@ {
        MatcherV::IsBool
    } else {
        MatcherV::Concrete(s)
    }
}

/// What an annotation value compiles to: the grammar of accepted
/// annotations, with an error exactly on the invalid shapes — an empty
/// list, a dictionary without exactly one entry, and any other value that
/// is not type-like (with a hint where the value has a `.type` attribute
/// the user likely meant to quote).
pub open spec fn compile_v(ty: RtValueV) -> Result<MatcherV, TypingErrorMV>
    decreases ty, 1int,
{
    match ty {
        RtValueV::Str(s) => Result::Ok(from_str_v(s)),
        RtValueV::NoneV => Result::Ok(MatcherV::IsNone),
        RtValueV::Tuple(es) => match compile_seq_v(es) {
            Result::Ok(ms) => Result::Ok(MatcherV::TupleOf(ms)),
            Result::Err(e) => Result::Err(e),
        },
        RtValueV::List(es) => if es.len() == 0 {
            Result::Err(TypingErrorMV::InvalidTypeAnnotation(display_rt_v(ty)))
        } else if es.len() == 1 {
            if is_wildcard_value_v(es[0]) {
                Result::Ok(MatcherV::IsList)
            } else {
                match compile_v(es[0]) {
                    Result::Ok(m) => Result::Ok(MatcherV::ListOf(Box::new(m))),
                    Result::Err(e) => Result::Err(e),
                }
            }
        } else if es.len() == 2 {
            match compile_v(es[0]) {
                Result::Err(e) => Result::Err(e),
                Result::Ok(m1) => match compile_v(es[1]) {
                    Result::Err(e) => Result::Err(e),
                    Result::Ok(m2) => Result::Ok(
                        MatcherV::AnyOfTwo(Box::new(m1), Box::new(m2)),
                    ),
                },
            }
        } else {
            match compile_seq_v(es) {
                Result::Ok(ms) => Result::Ok(MatcherV::AnyOf(ms)),
                Result::Err(e) => Result::Err(e),
            }
        },
        RtValueV::Dict(ps) => if ps.len() == 1 {
            if is_wildcard_value_v(ps[0].0) && is_wildcard_value_v(ps[0].1) {
                Result::Ok(MatcherV::IsDict)
            } else {
                match compile_v(ps[0].0) {
                    Result::Err(e) => Result::Err(e),
                    Result::Ok(mk) => match compile_v(ps[0].1) {
                        Result::Err(e) => Result::Err(e),
                        Result::Ok(mv) => Result::Ok(
                            MatcherV::DictOf(Box::new(mk), Box::new(mv)),
                        ),
                    },
                }
            }
        } else {
            Result::Err(TypingErrorMV::InvalidTypeAnnotation(display_rt_v(ty)))
        },
        RtValueV::Opaque(o) => match o.type_attr {
            Option::Some(name) => Result::Err(
                TypingErrorMV::PerhapsYouMeant(display_rt_v(ty), name),
            ),
            Option::None => Result::Err(TypingErrorMV::InvalidTypeAnnotation(display_rt_v(ty))),
        },
        _ => Result::Err(TypingErrorMV::InvalidTypeAnnotation(display_rt_v(ty))),
    }
}

/// What a sequence of annotation values compiles to: the first error wins.
pub open spec fn compile_seq_v(es: Seq<RtValueV>) -> Result<Seq<MatcherV>, TypingErrorMV>
    decreases es, 0int,
{
    if es.len() == 0 {
        Result::Ok(Seq::empty())
    } else {
        match compile_v(es[0]) {
            Result::Err(e) => Result::Err(e),
            Result::Ok(m) => match compile_seq_v(es.drop_first()) {
                Result::Err(e) => Result::Err(e),
                Result::Ok(rest) => Result::Ok(seq![m] + rest),
            },
        }
    }
}

/// A wildcard annotation compiles to the matcher that accepts every value,
/// `None`, lists, dictionaries and functions included.
pub proof fn lemma_wildcard_matches_everything(s: Seq<char>, v: RtValueV)
    requires
        is_wildcard_v(s),
    ensures
        compile_v(RtValueV::Str(s)) == Result::Ok::<MatcherV, TypingErrorMV>(MatcherV::Anything),
        matches_v(MatcherV::Anything, v),
{
}

/// One unfolding of the any-of search.
proof fn lemma_any_match_step(ts: Seq<MatcherV>, v: RtValueV)
    ensures
        ts.len() > 0 ==> any_match_v(ts, v) == (matches_v(ts[0], v) || any_match_v(
            ts.drop_first(),
            v,
        )),
        ts.len() == 0 ==> !any_match_v(ts, v),
{
}

/// One unfolding of the matcher on the two alternative shapes.
proof fn lemma_matches_any_unfold(a: MatcherV, b: MatcherV, ts: Seq<MatcherV>, v: RtValueV)
    ensures
        matches_v(MatcherV::AnyOfTwo(Box::new(a), Box::new(b)), v) == (matches_v(a, v)
            || matches_v(b, v)),
        matches_v(MatcherV::AnyOf(ts), v) == any_match_v(ts, v),
{
}

/// The two-alternative fast path and the general any-of matcher accept
/// exactly the same values.
pub proof fn lemma_any_of_two_general(a: MatcherV, b: MatcherV, v: RtValueV)
    ensures
        matches_v(MatcherV::AnyOfTwo(Box::new(a), Box::new(b)), v) == matches_v(
            MatcherV::AnyOf(seq![a, b]),
            v,
        ),
{
    let ts = seq![a, b];
    lemma_matches_any_unfold(a, b, ts, v);
    lemma_any_match_step(ts, v);
    assert(ts[0] == a);
    assert(ts.drop_first() =~= seq![b]);
    lemma_any_match_step(ts.drop_first(), v);
    assert(ts.drop_first()[0] == b);
    lemma_any_match_step(ts.drop_first().drop_first(), v);
}


impl TypeCompiled {
    /// Whether a matcher accepts a value.
    pub fn matches(&self, value: &RtValue) -> (r: bool)
        ensures
            r == matches_v(self@, value@),
        decreases *self, *value, 1int,
    {
        match self {
            TypeCompiled::Anything => true,
            TypeCompiled::IsNone => matches!(value, RtValue::NoneV),
            TypeCompiled::IsString => {
                match value {
                    RtValue::Str(_) => true,
                    RtValue::Opaque(o) => str_eq(o.rt_type.as_str(), "string"),
                    _ => false,
                }
            },
            TypeCompiled::IsInt => {
                match value {
                    RtValue::Int(_) => true,
                    RtValue::Opaque(o) => str_eq(o.rt_type.as_str(), "int"),
                    _ => false,
                }
            },
            TypeCompiled::IsBool => {
                match value {
                    RtValue::Bool(_) => true,
                    RtValue::Opaque(o) => str_eq(o.rt_type.as_str(), "bool"),
                    _ => false,
                }
            },
            TypeCompiled::Concrete(t) => str_eq(value.get_type(), t.as_str()),
            TypeCompiled::IsList => matches!(value, RtValue::List(_)),
            TypeCompiled::ListOf(t) => {
                match value {
                    RtValue::List(es) => all_match(t, es),
                    _ => false,
                }
            },
            TypeCompiled::AnyOfTwo(a, b) => {
                if a.matches(value) {
                    true
                } else {
                    b.matches(value)
                }
            },
            TypeCompiled::AnyOf(ts) => any_match(ts, value),
            TypeCompiled::IsDict => matches!(value, RtValue::Dict(_)),
            TypeCompiled::DictOf(_, _) => {
                match value {
                    RtValue::Dict(ps) => pairs_match(self, ps, Ghost(self@)),
                    _ => false,
                }
            },
            TypeCompiled::TupleOf(ts) => {
                match value {
                    RtValue::Tuple(es) => {
                        proof {
                            lemma_matcher_seq_view(ts@);
                            lemma_rt_seq_view(es@);
                        }
                        if ts.len() == es.len() {
                            zip_match(ts, es)
                        } else {
                            false
                        }
                    },
                    _ => false,
                }
            },
        }
    }
}

/// Whether every element matches.
fn all_match(t: &TypeCompiled, es: &Vec<RtValue>) -> (r: bool)
    ensures
        r == all_match_v(matcher_view(*t), rt_seq_view(es@)),
    decreases *t, *es, 0int,
{
    let ghost esv = rt_seq_view(es@);
    proof {
        lemma_rt_seq_view(es@);
        assert(esv.skip(0) =~= esv);
    }
    let mut i: usize = 0;
    while i < es.len()
        invariant
            esv == rt_seq_view(es@),
            esv.len() == es@.len(),
            i <= es.len(),
            forall|j: int| 0 <= j < es@.len() ==> #[trigger] esv[j] == rt_view(es@[j]),
            all_match_v(matcher_view(*t), esv) == all_match_v(
                matcher_view(*t),
                esv.skip(i as int),
            ),
        decreases es.len() - i,
    {
        proof {
            assert(esv.skip(i as int)[0] == esv[i as int]);
            assert(esv.skip(i as int).drop_first() =~= esv.skip(i + 1));
        }
        if !t.matches(&es[i]) {
            return false;
        }
        i = i + 1;
    }
    proof {
        assert(esv.skip(es@.len() as int).len() == 0);
    }
    true
}

/// Whether any matcher accepts the value.
fn any_match(ts: &Vec<TypeCompiled>, value: &RtValue) -> (r: bool)
    ensures
        r == any_match_v(matcher_seq_view(ts@), rt_view(*value)),
    decreases *ts, *value, 0int,
{
    let ghost tsv = matcher_seq_view(ts@);
    proof {
        lemma_matcher_seq_view(ts@);
        assert(tsv.skip(0) =~= tsv);
    }
    let mut i: usize = 0;
    while i < ts.len()
        invariant
            tsv == matcher_seq_view(ts@),
            tsv.len() == ts@.len(),
            i <= ts.len(),
            forall|j: int| 0 <= j < ts@.len() ==> #[trigger] tsv[j] == matcher_view(ts@[j]),
            any_match_v(tsv, rt_view(*value)) == any_match_v(
                tsv.skip(i as int),
                rt_view(*value),
            ),
        decreases ts.len() - i,
    {
        proof {
            assert(tsv.skip(i as int)[0] == tsv[i as int]);
            assert(tsv.skip(i as int).drop_first() =~= tsv.skip(i + 1));
        }
        if ts[i].matches(value) {
            return true;
        }
        i = i + 1;
    }
    proof {
        assert(tsv.skip(ts@.len() as int).len() == 0);
    }
    false
}

/// Whether every entry's key and value match a dictionary-of matcher.
fn pairs_match(m: &TypeCompiled, ps: &Vec<(RtValue, RtValue)>, mv: Ghost<MatcherV>) -> (r: bool)
    requires
        m is DictOf,
        mv@ == matcher_view(*m),
    ensures
        r == pairs_match_v(mv@, rt_pairs_view(ps@)),
    decreases *m, *ps, 0int,
{
    let ghost psv = rt_pairs_view(ps@);
    proof {
        lemma_rt_pairs_view(ps@);
        assert(psv.skip(0) =~= psv);
    }
    let (mk, mval) = match m {
        TypeCompiled::DictOf(a, b) => (a, b),
        _ => {
            proof {
                assert(false);
            }
            return true;
        },
    };
    let mut i: usize = 0;
    while i < ps.len()
        invariant
            *m == TypeCompiled::DictOf(*mk, *mval),
            mv@ == matcher_view(*m),
            mv@ is DictOf,
            mv@->DictOf_0 == Box::new(matcher_view(**mk)),
            mv@->DictOf_1 == Box::new(matcher_view(**mval)),
            psv == rt_pairs_view(ps@),
            psv.len() == ps@.len(),
            i <= ps.len(),
            forall|j: int| 0 <= j < ps@.len() ==> #[trigger] psv[j] == (
                rt_view(ps@[j].0),
                rt_view(ps@[j].1),
            ),
            pairs_match_v(mv@, psv) == pairs_match_v(mv@, psv.skip(i as int)),
        decreases ps.len() - i,
    {
        proof {
            assert(psv.skip(i as int)[0] == psv[i as int]);
            assert(psv.skip(i as int).drop_first() =~= psv.skip(i + 1));
        }
        if !mk.matches(&ps[i].0) {
            return false;
        }
        if !mval.matches(&ps[i].1) {
            return false;
        }
        i = i + 1;
    }
    proof {
        assert(psv.skip(ps@.len() as int).len() == 0);
    }
    true
}

/// Whether each component matches positionally.
fn zip_match(ts: &Vec<TypeCompiled>, es: &Vec<RtValue>) -> (r: bool)
    requires
        ts@.len() == es@.len(),
    ensures
        r == zip_match_v(matcher_seq_view(ts@), rt_seq_view(es@)),
    decreases *ts, *es, 0int,
{
    let ghost tsv = matcher_seq_view(ts@);
    let ghost esv = rt_seq_view(es@);
    proof {
        lemma_matcher_seq_view(ts@);
        lemma_rt_seq_view(es@);
        assert(tsv.skip(0) =~= tsv);
        assert(esv.skip(0) =~= esv);
    }
    let mut i: usize = 0;
    while i < ts.len()
        invariant
            tsv == matcher_seq_view(ts@),
            esv == rt_seq_view(es@),
            tsv.len() == ts@.len(),
            esv.len() == es@.len(),
            ts@.len() == es@.len(),
            i <= ts.len(),
            forall|j: int| 0 <= j < ts@.len() ==> #[trigger] tsv[j] == matcher_view(ts@[j]),
            forall|j: int| 0 <= j < es@.len() ==> #[trigger] esv[j] == rt_view(es@[j]),
            zip_match_v(tsv, esv) == zip_match_v(tsv.skip(i as int), esv.skip(i as int)),
        decreases ts.len() - i,
    {
        proof {
            assert(tsv.skip(i as int)[0] == tsv[i as int]);
            assert(esv.skip(i as int)[0] == esv[i as int]);
            assert(tsv.skip(i as int).drop_first() =~= tsv.skip(i + 1));
            assert(esv.skip(i as int).drop_first() =~= esv.skip(i + 1));
        }
        if !ts[i].matches(&es[i]) {
            return false;
        }
        i = i + 1;
    }
    proof {
        assert(tsv.skip(ts@.len() as int).len() == 0);
    }
    true
}


impl TypeCompiled {
    /// Whether an annotation string is a wildcard: empty, or starting with
    /// an underscore.
    pub fn is_wildcard(x: &str) -> (r: bool)
        ensures
            r == is_wildcard_v(x@),
    {
        let n = x.unicode_len();
        if n == 0 {
            return true;
        }
        x.get_char(0) == '_'
    }

    /// Whether an annotation value is a wildcard string.
    pub fn is_wildcard_value(x: &RtValue) -> (r: bool)
        ensures
            r == is_wildcard_value_v(x@),
    {
        match x {
            RtValue::Str(s) => TypeCompiled::is_wildcard(s.as_str()),
            _ => false,
        }
    }

    /// Compile a string annotation.
    fn from_str(t: &str) -> (r: TypeCompiled)
        ensures
            r@ == from_str_v(t@),
    {
        if TypeCompiled::is_wildcard(t) {
            TypeCompiled::Anything
        } else if str_eq(t, "string") {
            TypeCompiled::IsString
        } else if str_eq(t, "int") {
            TypeCompiled::IsInt
        } else if str_eq(t, "bool") {
            TypeCompiled::IsBool
        } else {
            TypeCompiled::Concrete(str_to_string(t))
        }
    }

    /// Compile an annotation value into a matcher, or report why the value
    /// is not a valid annotation.
    pub fn new(ty: &RtValue) -> (r: Result<TypeCompiled, TypingError>)
        ensures
            match r {
                Result::Ok(m) => compile_v(ty@) == Result::Ok::<MatcherV, TypingErrorMV>(m@),
                Result::Err(e) => compile_v(ty@) == Result::Err::<MatcherV, TypingErrorMV>(e@),
            },
        decreases *ty, 1int,
    {
        match ty {
            RtValue::Str(s) => Result::Ok(TypeCompiled::from_str(s.as_str())),
            RtValue::NoneV => Result::Ok(TypeCompiled::IsNone),
            RtValue::Tuple(es) => {
                match compile_list(es) {
                    Result::Ok(ms) => Result::Ok(TypeCompiled::TupleOf(ms)),
                    Result::Err(e) => Result::Err(e),
                }
            },
            RtValue::List(es) => TypeCompiled::from_list(ty, es, Ghost(ty@)),
            RtValue::Dict(ps) => TypeCompiled::from_dict(ty, ps, Ghost(ty@)),
            RtValue::Opaque(o) => {
                match &o.type_attr {
                    Option::Some(name) => Result::Err(
                        TypingError::PerhapsYouMeant(ty.to_str(), name.clone()),
                    ),
                    Option::None => Result::Err(
                        TypingError::InvalidTypeAnnotation(ty.to_str()),
                    ),
                }
            },
            _ => Result::Err(TypingError::InvalidTypeAnnotation(ty.to_str())),
        }
    }

    /// Compile a list annotation: `[t]` matches lists of `t`, `[t1, t2]`
    /// and longer lists match any of the alternatives, and `[]` is not a
    /// valid annotation.
    fn from_list(whole: &RtValue, es: &Vec<RtValue>, wv: Ghost<RtValueV>) -> (r: Result<
        TypeCompiled,
        TypingError,
    >)
        requires
            wv@ == rt_view(*whole),
            wv@ == RtValueV::List(rt_seq_view(es@)),
        ensures
            match r {
                Result::Ok(m) => compile_v(wv@) == Result::Ok::<MatcherV, TypingErrorMV>(m@),
                Result::Err(e) => compile_v(wv@) == Result::Err::<MatcherV, TypingErrorMV>(e@),
            },
        decreases *es, 2int,
    {
        proof {
            lemma_rt_seq_view(es@);
        }
        if es.len() == 0 {
            Result::Err(TypingError::InvalidTypeAnnotation(whole.to_str()))
        } else if es.len() == 1 {
            if TypeCompiled::is_wildcard_value(&es[0]) {
                Result::Ok(TypeCompiled::IsList)
            } else {
                match TypeCompiled::new(&es[0]) {
                    Result::Ok(m) => Result::Ok(TypeCompiled::ListOf(Box::new(m))),
                    Result::Err(e) => Result::Err(e),
                }
            }
        } else if es.len() == 2 {
            match TypeCompiled::new(&es[0]) {
                Result::Err(e) => Result::Err(e),
                Result::Ok(m1) => match TypeCompiled::new(&es[1]) {
                    Result::Err(e) => Result::Err(e),
                    Result::Ok(m2) => Result::Ok(
                        TypeCompiled::AnyOfTwo(Box::new(m1), Box::new(m2)),
                    ),
                },
            }
        } else {
            match compile_list(es) {
                Result::Ok(ms) => Result::Ok(TypeCompiled::AnyOf(ms)),
                Result::Err(e) => Result::Err(e),
            }
        }
    }

    /// Compile a dictionary annotation: exactly one entry `{k: v}`, whose
    /// keys and values the entries of a matching dictionary must match;
    /// two wildcards match any dictionary.
    fn from_dict(whole: &RtValue, ps: &Vec<(RtValue, RtValue)>, wv: Ghost<RtValueV>) -> (r: Result<
        TypeCompiled,
        TypingError,
    >)
        requires
            wv@ == rt_view(*whole),
            wv@ == RtValueV::Dict(rt_pairs_view(ps@)),
        ensures
            match r {
                Result::Ok(m) => compile_v(wv@) == Result::Ok::<MatcherV, TypingErrorMV>(m@),
                Result::Err(e) => compile_v(wv@) == Result::Err::<MatcherV, TypingErrorMV>(e@),
            },
        decreases *ps, 0int,
    {
        proof {
            lemma_rt_pairs_view(ps@);
        }
        if ps.len() == 1 {
            if TypeCompiled::is_wildcard_value(&ps[0].0) && TypeCompiled::is_wildcard_value(
                &ps[0].1,
            ) {
                Result::Ok(TypeCompiled::IsDict)
            } else {
                match TypeCompiled::new(&ps[0].0) {
                    Result::Err(e) => Result::Err(e),
                    Result::Ok(mk) => match TypeCompiled::new(&ps[0].1) {
                        Result::Err(e) => Result::Err(e),
                        Result::Ok(mv) => Result::Ok(
                            TypeCompiled::DictOf(Box::new(mk), Box::new(mv)),
                        ),
                    },
                }
            }
        } else {
            Result::Err(TypingError::InvalidTypeAnnotation(whole.to_str()))
        }
    }
}

/// Compile each annotation of a sequence; the first error wins.
fn compile_list(es: &Vec<RtValue>) -> (r: Result<Vec<TypeCompiled>, TypingError>)
    ensures
        match r {
            Result::Ok(ms) => compile_seq_v(rt_seq_view(es@)) == Result::Ok::<
                Seq<MatcherV>,
                TypingErrorMV,
            >(matcher_seq_view(ms@)),
            Result::Err(e) => compile_seq_v(rt_seq_view(es@)) == Result::Err::<
                Seq<MatcherV>,
                TypingErrorMV,
            >(e@),
        },
    decreases *es, 1int,
{
    let ghost esv = rt_seq_view(es@);
    proof {
        lemma_rt_seq_view(es@);
        assert(esv.skip(0) =~= esv);
    }
    let mut ms: Vec<TypeCompiled> = Vec::new();
    let mut i: usize = 0;
    while i < es.len()
        invariant
            esv == rt_seq_view(es@),
            esv.len() == es@.len(),
            i <= es.len(),
            forall|j: int| 0 <= j < es@.len() ==> #[trigger] esv[j] == rt_view(es@[j]),
            compile_seq_v(esv) == (match compile_seq_v(esv.skip(i as int)) {
                Result::Ok(rest) => Result::Ok::<Seq<MatcherV>, TypingErrorMV>(
                    matcher_seq_view(ms@) + rest,
                ),
                Result::Err(e) => Result::Err::<Seq<MatcherV>, TypingErrorMV>(e),
            }),
        decreases es.len() - i,
    {
        proof {
            assert(esv.skip(i as int)[0] == esv[i as int]);
            assert(esv.skip(i as int).drop_first() =~= esv.skip(i + 1));
            lemma_matcher_seq_view(ms@);
        }
        match TypeCompiled::new(&es[i]) {
            Result::Err(e) => {
                return Result::Err(e);
            },
            Result::Ok(m) => {
                proof {
                    lemma_matcher_seq_view(ms@.push(m));
                    assert(ms@.push(m).drop_last() =~= ms@);
                    assert(matcher_seq_view(ms@.push(m)).drop_last() =~= matcher_seq_view(ms@));
                    assert(matcher_seq_view(ms@.push(m)) =~= matcher_seq_view(ms@).push(m@));
                    if let Result::Ok(rest) = compile_seq_v(esv.skip(i + 1)) {
                        assert(matcher_seq_view(ms@.push(m)) + rest =~= matcher_seq_view(ms@) + (
                        seq![m@] + rest));
                    }
                }
                ms.push(m);
            },
        }
        i = i + 1;
    }
    proof {
        assert(esv.skip(es@.len() as int).len() == 0);
        if let Result::Ok(rest) = compile_seq_v(esv.skip(es@.len() as int)) {
            assert(matcher_seq_view(ms@) + rest =~= matcher_seq_view(ms@));
        }
    }
    Result::Ok(ms)
}

impl RtValue {
    /// Whether this value has the annotated type; an error where the
    /// annotation itself is invalid.
    pub fn is_type(&self, ty: &RtValue) -> (r: Result<bool, TypingError>)
        ensures
            match r {
                Result::Ok(b) => exists|m: MatcherV|
                    compile_v(ty@) == Result::Ok::<MatcherV, TypingErrorMV>(m) && b == matches_v(
                        m,
                        self@,
                    ),
                Result::Err(e) => compile_v(ty@) == Result::Err::<MatcherV, TypingErrorMV>(e@),
            },
    {
        match TypeCompiled::new(ty) {
            Result::Ok(m) => {
                let b = m.matches(self);
                proof {
                    assert(compile_v(ty@) == Result::Ok::<MatcherV, TypingErrorMV>(m@) && b
                        == matches_v(m@, self@));
                }
                Result::Ok(b)
            },
            Result::Err(e) => Result::Err(e),
        }
    }

    /// The mismatch error for a failed call-time check: it names the value,
    /// the value's runtime type, the annotation, and the parameter (or the
    /// return type).
    fn check_type_error(&self, ty: &RtValue, arg_name: Option<&str>) -> (r: TypingError)
        ensures
            r@ == TypingErrorMV::TypeAnnotationMismatch(
                display_rt_v(self@),
                rt_type_name_v(self@),
                display_rt_v(ty@),
                match arg_name {
                    Option::None => "return type"@,
                    Option::Some(x) => "argument `"@ + x@ + "`"@,
                },
            ),
    {
        let what = match arg_name {
            Option::None => str_to_string("return type"),
            Option::Some(x) => {
                let mut w = str_to_string("argument `");
                w.append(x);
                w.append("`");
                w
            },
        };
        TypingError::TypeAnnotationMismatch(
            self.to_str(),
            str_to_string(self.get_type()),
            ty.to_str(),
            what,
        )
    }

    /// Check this value against an annotation: `Ok` exactly when the
    /// compiled annotation accepts the value, a mismatch error naming
    /// value, type, annotation and parameter otherwise, and the
    /// annotation's own error where it is invalid.
    pub fn check_type(&self, ty: &RtValue, arg_name: Option<&str>) -> (r: Result<
        (),
        TypingError,
    >)
        ensures
            match r {
                Result::Ok(()) => exists|m: MatcherV|
                    compile_v(ty@) == Result::Ok::<MatcherV, TypingErrorMV>(m) && matches_v(
                        m,
                        self@,
                    ),
                Result::Err(e) => (compile_v(ty@) == Result::Err::<MatcherV, TypingErrorMV>(e@))
                    || (exists|m: MatcherV|
                    compile_v(ty@) == Result::Ok::<MatcherV, TypingErrorMV>(m) && !matches_v(
                        m,
                        self@,
                    ) && e@ == TypingErrorMV::TypeAnnotationMismatch(
                        display_rt_v(self@),
                        rt_type_name_v(self@),
                        display_rt_v(ty@),
                        match arg_name {
                            Option::None => "return type"@,
                            Option::Some(x) => "argument `"@ + x@ + "`"@,
                        },
                    )),
            },
    {
        match TypeCompiled::new(ty) {
            Result::Err(e) => Result::Err(e),
            Result::Ok(m) => {
                if m.matches(self) {
                    proof {
                        assert(compile_v(ty@) == Result::Ok::<MatcherV, TypingErrorMV>(m@)
                            && matches_v(m@, self@));
                    }
                    Result::Ok(())
                } else {
                    let e = self.check_type_error(ty, arg_name);
                    proof {
                        assert(compile_v(ty@) == Result::Ok::<MatcherV, TypingErrorMV>(m@)
                            && !matches_v(m@, self@));
                    }
                    Result::Err(e)
                }
            },
        }
    }

    /// Check this value against an already-compiled annotation.
    pub fn check_type_compiled(
        &self,
        ty: &RtValue,
        ty_compiled: &TypeCompiled,
        arg_name: Option<&str>,
    ) -> (r: Result<(), TypingError>)
        ensures
            match r {
                Result::Ok(()) => matches_v(ty_compiled@, self@),
                Result::Err(e) => !matches_v(ty_compiled@, self@) && e@
                    == TypingErrorMV::TypeAnnotationMismatch(
                    display_rt_v(self@),
                    rt_type_name_v(self@),
                    display_rt_v(ty@),
                    match arg_name {
                        Option::None => "return type"@,
                        Option::Some(x) => "argument `"@ + x@ + "`"@,
                    },
                ),
            },
    {
        if ty_compiled.matches(self) {
            Result::Ok(())
        } else {
            Result::Err(self.check_type_error(ty, arg_name))
        }
    }
}

} // verus!
