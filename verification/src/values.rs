//! The runtime value model: what the evaluator hands the annotation
//! compiler and the call-time type checks.  The evaluator itself is an
//! outside collaborator; the host converts its heap values into this plain
//! form at the boundary.

use vstd::prelude::*;
use crate::strings::str_to_string;

verus! {

/// A runtime value, in the plain form the library works on.
#[derive(Debug)]
pub enum RtValue {
    /// The `None` value.
    NoneV,
    /// A boolean.
    Bool(bool),
    /// An integer.
    Int(i64),
    /// A string.
    Str(String),
    /// A list.
    List(Vec<RtValue>),
    /// A tuple.
    Tuple(Vec<RtValue>),
    /// A dictionary, as its entries in order.
    Dict(Vec<(RtValue, RtValue)>),
    /// Any other value: the library sees only its runtime type name and,
    /// where the value publishes one, its `.type` attribute.
    Opaque(OpaqueValue),
}

/// A value the library knows nothing about beyond its identity.
#[derive(Debug)]
pub struct OpaqueValue {
    /// The runtime type name the value reports.
    pub rt_type: String,
    /// The string under the value's `.type` attribute, if it has one.
    pub type_attr: Option<String>,
}

/// The mathematical model of a [`RtValue`].
#[verifier::ext_equal]
pub enum RtValueV {
    NoneV,
    Bool(bool),
    Int(int),
    Str(Seq<char>),
    List(Seq<RtValueV>),
    Tuple(Seq<RtValueV>),
    Dict(Seq<(RtValueV, RtValueV)>),
    Opaque(OpaqueV),
}

/// The mathematical model of an [`OpaqueValue`].
#[verifier::ext_equal]
pub struct OpaqueV {
    pub rt_type: Seq<char>,
    pub type_attr: Option<Seq<char>>,
}

impl View for RtValue {
    type V = RtValueV;

    open(crate) spec fn view(&self) -> RtValueV {
        rt_view(*self)
    }
}

impl View for OpaqueValue {
    type V = OpaqueV;

    open spec fn view(&self) -> OpaqueV {
        OpaqueV {
            rt_type: self.rt_type@,
            type_attr: match &self.type_attr {
                Option::Some(s) => Option::Some(s@),
                Option::None => Option::None,
            },
        }
    }
}

/// The model of a runtime value.
pub open(crate) spec fn rt_view(v: RtValue) -> RtValueV
    decreases v,
{
    match v {
        RtValue::NoneV => RtValueV::NoneV,
        RtValue::Bool(b) => RtValueV::Bool(b),
        RtValue::Int(i) => RtValueV::Int(i as int),
        RtValue::Str(s) => RtValueV::Str(s@),
        RtValue::List(es) => RtValueV::List(rt_seq_view(es@)),
        RtValue::Tuple(es) => RtValueV::Tuple(rt_seq_view(es@)),
        RtValue::Dict(ps) => RtValueV::Dict(rt_pairs_view(ps@)),
        RtValue::Opaque(o) => RtValueV::Opaque(o@),
    }
}

/// The models of the elements of a sequence of runtime values.
pub open(crate) spec fn rt_seq_view(es: Seq<RtValue>) -> Seq<RtValueV>
    decreases es,
{
    if es.len() == 0 {
        Seq::empty()
    } else {
        rt_seq_view(es.drop_last()).push(rt_view(es.last()))
    }
}

/// The models of the entries of a dictionary value.
pub open(crate) spec fn rt_pairs_view(ps: Seq<(RtValue, RtValue)>) -> Seq<(RtValueV, RtValueV)>
    decreases ps,
{
    if ps.len() == 0 {
        Seq::empty()
    } else {
        rt_pairs_view(ps.drop_last()).push((rt_view(ps.last().0), rt_view(ps.last().1)))
    }
}

/// `rt_seq_view` maps the view over the elements.
pub broadcast proof fn lemma_rt_seq_view(es: Seq<RtValue>)
    ensures
        #[trigger] rt_seq_view(es).len() == es.len(),
        forall|i: int| 0 <= i < es.len() ==> rt_seq_view(es)[i] == rt_view(es[i]),
    decreases es.len(),
{
    if es.len() > 0 {
        lemma_rt_seq_view(es.drop_last());
    }
}

/// `rt_pairs_view` maps the view over the entries.
pub broadcast proof fn lemma_rt_pairs_view(ps: Seq<(RtValue, RtValue)>)
    ensures
        #[trigger] rt_pairs_view(ps).len() == ps.len(),
        forall|i: int|
            0 <= i < ps.len() ==> rt_pairs_view(ps)[i] == (
                rt_view(ps[i].0),
                rt_view(ps[i].1),
            ),
    decreases ps.len(),
{
    if ps.len() > 0 {
        lemma_rt_pairs_view(ps.drop_last());
    }
}

/// The runtime type name a value reports.
pub open spec fn rt_type_name_v(v: RtValueV) -> Seq<char> {
    match v {
        RtValueV::NoneV => "NoneType"@,
        RtValueV::Bool(_) => "bool"@,
        RtValueV::Int(_) => "int"@,
        RtValueV::Str(_) => "string"@,
        RtValueV::List(_) => "list"@,
        RtValueV::Tuple(_) => "tuple"@,
        RtValueV::Dict(_) => "dict"@,
        RtValueV::Opaque(o) => o.rt_type,
    }
}

/// The decimal digit as a one-character string.
pub open spec fn digit_str_v(d: int) -> Seq<char> {
    if d == 0 {
        "0"@
    } else if d == 1 {
        "1"@
    } else if d == 2 {
        "2"@
    } else if d == 3 {
        "3"@
    } else if d == 4 {
        "4"@
    } else if d == 5 {
        "5"@
    } else if d == 6 {
        "6"@
    } else if d == 7 {
        "7"@
    } else if d == 8 {
        "8"@
    } else {
        "9"@
    }
}

/// The decimal rendering of a non-negative integer.
pub open spec fn nat_dec_v(n: int) -> Seq<char>
    decreases n,
{
    if n < 10 {
        digit_str_v(n)
    } else {
        nat_dec_v(n / 10) + digit_str_v(n % 10)
    }
}

/// The decimal rendering of an integer.
pub open spec fn int_dec_v(n: int) -> Seq<char> {
    if n < 0 {
        "-"@ + nat_dec_v(-n)
    } else {
        nat_dec_v(n)
    }
}

/// The rendering of a runtime value, as the runtime error messages show it.
/// Strings are shown as their contents, without quotes.
pub open spec fn display_rt_v(v: RtValueV) -> Seq<char>
    decreases v,
{
    match v {
        RtValueV::NoneV => "None"@,
        RtValueV::Bool(b) => if b {
            "True"@
        } else {
            "False"@
        },
        RtValueV::Int(i) => int_dec_v(i),
        RtValueV::Str(s) => s,
        RtValueV::List(es) => "["@ + display_rt_list_v(es) + "]"@,
        RtValueV::Tuple(es) => "("@ + display_rt_list_v(es) + ")"@,
        RtValueV::Dict(ps) => "{"@ + display_rt_pairs_v(ps) + "}"@,
        RtValueV::Opaque(o) => "<"@ + o.rt_type + ">"@,
    }
}

/// The rendering of a sequence of values, separated by commas.
pub open spec fn display_rt_list_v(es: Seq<RtValueV>) -> Seq<char>
    decreases es,
{
    if es.len() == 0 {
        Seq::empty()
    } else if es.len() == 1 {
        display_rt_v(es.last())
    } else {
        display_rt_list_v(es.drop_last()) + ", "@ + display_rt_v(es.last())
    }
}

/// The rendering of the entries of a dictionary, separated by commas.
pub open spec fn display_rt_pairs_v(ps: Seq<(RtValueV, RtValueV)>) -> Seq<char>
    decreases ps,
{
    if ps.len() == 0 {
        Seq::empty()
    } else if ps.len() == 1 {
        display_rt_v(ps.last().0) + ": "@ + display_rt_v(ps.last().1)
    } else {
        display_rt_pairs_v(ps.drop_last()) + ", "@ + display_rt_v(ps.last().0) + ": "@
            + display_rt_v(ps.last().1)
    }
}

/// The decimal rendering of a non-negative integer.
fn nat_to_string(n: u64) -> (r: String)
    ensures
        r@ == nat_dec_v(n as int),
    decreases n,
{
    let d = n % 10;
    let piece = match d {
        0 => "0",
        1 => "1",
        2 => "2",
        3 => "3",
        4 => "4",
        5 => "5",
        6 => "6",
        7 => "7",
        8 => "8",
        _ => "9",
    };
    if n < 10 {
        str_to_string(piece)
    } else {
        let mut r = nat_to_string(n / 10);
        r.append(piece);
        r
    }
}

impl RtValue {
    /// The runtime type name this value reports.
    pub fn get_type(&self) -> (r: &str)
        ensures
            r@ == rt_type_name_v(self@),
    {
        match self {
            RtValue::NoneV => "NoneType",
            RtValue::Bool(_) => "bool",
            RtValue::Int(_) => "int",
            RtValue::Str(_) => "string",
            RtValue::List(_) => "list",
            RtValue::Tuple(_) => "tuple",
            RtValue::Dict(_) => "dict",
            RtValue::Opaque(o) => o.rt_type.as_str(),
        }
    }

    /// Render this value as the runtime error messages show it.
    pub fn to_str(&self) -> (r: String)
        ensures
            r@ == display_rt_v(self@),
        decreases *self,
    {
        match self {
            RtValue::NoneV => str_to_string("None"),
            RtValue::Bool(b) => {
                if *b {
                    str_to_string("True")
                } else {
                    str_to_string("False")
                }
            },
            RtValue::Int(i) => {
                if *i < 0 {
                    // The magnitude of any negative `i64` fits in a `u64`.
                    let wide: i128 = *i as i128;
                    let neg: i128 = -wide;
                    proof {
                        assert(0 < neg <= 0x8000_0000_0000_0000int);
                    }
                    let m: u64 = neg as u64;
                    let digits = nat_to_string(m);
                    let mut r = str_to_string("-");
                    r.append(digits.as_str());
                    r
                } else {
                    nat_to_string(*i as u64)
                }
            },
            RtValue::Str(s) => s.clone(),
            RtValue::List(es) => {
                let inner = rt_list_to_str(es);
                let mut r = str_to_string("[");
                r.append(inner.as_str());
                r.append("]");
                r
            },
            RtValue::Tuple(es) => {
                let inner = rt_list_to_str(es);
                let mut r = str_to_string("(");
                r.append(inner.as_str());
                r.append(")");
                r
            },
            RtValue::Dict(ps) => {
                let inner = rt_pairs_to_str(ps);
                let mut r = str_to_string("{");
                r.append(inner.as_str());
                r.append("}");
                r
            },
            RtValue::Opaque(o) => {
                let mut r = str_to_string("<");
                r.append(o.rt_type.as_str());
                r.append(">");
                r
            },
        }
    }
}

/// Render a sequence of values, separated by commas.
fn rt_list_to_str(es: &Vec<RtValue>) -> (r: String)
    ensures
        r@ == display_rt_list_v(rt_seq_view(es@)),
    decreases *es,
{
    let ghost esv = rt_seq_view(es@);
    proof {
        lemma_rt_seq_view(es@);
    }
    let mut r = String::new();
    let mut i: usize = 0;
    while i < es.len()
        invariant
            esv == rt_seq_view(es@),
            esv.len() == es@.len(),
            i <= es.len(),
            r@ == display_rt_list_v(esv.take(i as int)),
        decreases es.len() - i,
    {
        proof {
            lemma_rt_seq_view(es@);
        }
        let piece = es[i].to_str();
        if i > 0 {
            r.append(", ");
        }
        r.append(piece.as_str());
        i = i + 1;
        proof {
            assert(esv.take(i as int).drop_last() =~= esv.take(i - 1));
            assert(esv.take(i as int).last() == esv[i - 1]);
        }
    }
    proof {
        assert(esv.take(es@.len() as int) =~= esv);
    }
    r
}

/// Render the entries of a dictionary, separated by commas.
fn rt_pairs_to_str(ps: &Vec<(RtValue, RtValue)>) -> (r: String)
    ensures
        r@ == display_rt_pairs_v(rt_pairs_view(ps@)),
    decreases *ps,
{
    let ghost psv = rt_pairs_view(ps@);
    proof {
        lemma_rt_pairs_view(ps@);
    }
    let mut r = String::new();
    let mut i: usize = 0;
    while i < ps.len()
        invariant
            psv == rt_pairs_view(ps@),
            psv.len() == ps@.len(),
            i <= ps.len(),
            r@ == display_rt_pairs_v(psv.take(i as int)),
        decreases ps.len() - i,
    {
        proof {
            lemma_rt_pairs_view(ps@);
        }
        let k = ps[i].0.to_str();
        let v = ps[i].1.to_str();
        if i > 0 {
            r.append(", ");
        }
        r.append(k.as_str());
        r.append(": ");
        r.append(v.as_str());
        i = i + 1;
        proof {
            assert(psv.take(i as int).drop_last() =~= psv.take(i - 1));
            assert(psv.take(i as int).last() == psv[i - 1]);
        }
    }
    proof {
        assert(psv.take(ps@.len() as int) =~= psv);
    }
    r
}

} // verus!
