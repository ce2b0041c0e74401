//! Rendering of types as the source language writes them, specified
//! character by character.

use vstd::prelude::*;
use crate::strings::{str_eq, str_to_string};
use crate::ty::{
    lemma_seq_views_of, lemma_view_custom, lemma_view_custom_function, lemma_view_custom_opaque,
    seq_views_of, ty_view, Approximation, Ty, TyCustom, TyCustomV, TyV,
};

verus! {

/// A name wrapped in double quotes.
pub open spec fn quote_v(s: Seq<char>) -> Seq<char> {
    "\""@ + s + "\""@
}

/// The rendering of a type.
pub open spec fn display_ty_v(t: TyV) -> Seq<char>
    decreases t,
{
    match t {
        TyV::Never => "\"never\""@,
        TyV::Any => "\"\""@,
        TyV::Union(ms) => "["@ + display_list_v(ms) + "]"@,
        TyV::Name(s) => display_name_v(s),
        TyV::Iter(x) => "iter("@ + display_ty_v(*x) + ")"@,
        TyV::List(x) => "["@ + display_ty_v(*x) + "]"@,
        TyV::Tuple(ts) => if ts.len() == 1 {
            "("@ + display_ty_v(ts[0]) + ",)"@
        } else {
            "("@ + display_list_v(ts) + ")"@
        },
        TyV::Dict(k, v) => "{"@ + display_ty_v(*k) + ": "@ + display_ty_v(*v) + "}"@,
        TyV::Custom(c) => display_custom_v(c),
    }
}

/// The rendering of an atomic type name: a handful of names render through
/// their `.type` form, everything else in quotes.
pub open spec fn display_name_v(s: Seq<char>) -> Seq<char> {
    if s == "string"@ {
        "str.type"@
    } else if s == "int"@ {
        "int.type"@
    } else if s == "bool"@ {
        "bool.type"@
    } else if s == "NoneType"@ {
        "None"@
    } else {
        quote_v(s)
    }
}

/// The rendering of a sequence of types, separated by commas.
pub open spec fn display_list_v(ts: Seq<TyV>) -> Seq<char>
    decreases ts,
{
    if ts.len() == 0 {
        Seq::empty()
    } else if ts.len() == 1 {
        display_ty_v(ts.last())
    } else {
        display_list_v(ts.drop_last()) + ", "@ + display_ty_v(ts.last())
    }
}

/// The rendering of a custom type: its name in quotes, or its
/// implementation kind where it has no name.
pub open spec fn display_custom_v(c: TyCustomV) -> Seq<char> {
    match c {
        TyCustomV::Function(_) => quote_v("function"@),
        TyCustomV::Opaque(o) => match o.name {
            Option::Some(n) => quote_v(n),
            Option::None => quote_v(o.kind),
        },
    }
}

/// A name wrapped in double quotes.
fn quote(s: &str) -> (r: String)
    ensures
        r@ == quote_v(s@),
{
    let mut r = str_to_string("\"");
    r.append(s);
    r.append("\"");
    r
}

/// Render a type as the source language writes it.
pub fn ty_to_str(t: &Ty) -> (r: String)
    ensures
        r@ == display_ty_v(t@),
    decreases *t,
{
    match t {
        Ty::Never => str_to_string("\"never\""),
        Ty::Any => str_to_string("\"\""),
        Ty::Union(u) => {
            let inner = ty_list_to_str(&u.alternatives);
            let mut r = str_to_string("[");
            r.append(inner.as_str());
            r.append("]");
            r
        },
        Ty::Name(n) => {
            let s = n.as_str();
            if str_eq(s, "string") {
                str_to_string("str.type")
            } else if str_eq(s, "int") {
                str_to_string("int.type")
            } else if str_eq(s, "bool") {
                str_to_string("bool.type")
            } else if str_eq(s, "NoneType") {
                str_to_string("None")
            } else {
                quote(s)
            }
        },
        Ty::Iter(x) => {
            let inner = ty_to_str(x);
            let mut r = str_to_string("iter(");
            r.append(inner.as_str());
            r.append(")");
            r
        },
        Ty::List(x) => {
            let inner = ty_to_str(x);
            let mut r = str_to_string("[");
            r.append(inner.as_str());
            r.append("]");
            r
        },
        Ty::Tuple(ts) => {
            proof {
                lemma_seq_views_of(ts@);
            }
            if ts.len() == 1 {
                let inner = ty_to_str(&ts[0]);
                let mut r = str_to_string("(");
                r.append(inner.as_str());
                r.append(",)");
                proof {
                    assert(seq_views_of(ts@)[0] == ty_view(ts@[0]));
                }
                r
            } else {
                let inner = ty_list_to_str(ts);
                let mut r = str_to_string("(");
                r.append(inner.as_str());
                r.append(")");
                r
            }
        },
        Ty::Dict(kv) => {
            let ks = ty_to_str(&kv.0);
            let vs = ty_to_str(&kv.1);
            let mut r = str_to_string("{");
            r.append(ks.as_str());
            r.append(": ");
            r.append(vs.as_str());
            r.append("}");
            r
        },
        Ty::Custom(c) => {
            proof {
                lemma_view_custom(*c);
            }
            match c {
                TyCustom::Function(f) => {
                    proof {
                        lemma_view_custom_function(*f);
                    }
                    quote("function")
                },
                TyCustom::Opaque(o) => {
                    proof {
                        lemma_view_custom_opaque(*o);
                    }
                    match &o.name {
                        Option::Some(n) => quote(n.as_str()),
                        Option::None => quote(o.kind.as_str()),
                    }
                },
            }
        },
    }
}

/// Render a vector of types, separated by commas.
fn ty_list_to_str(ts: &Vec<Ty>) -> (r: String)
    ensures
        r@ == display_list_v(seq_views_of(ts@)),
    decreases *ts,
{
    let ghost tsv = seq_views_of(ts@);
    proof {
        lemma_seq_views_of(ts@);
    }
    let mut r = String::new();
    let mut i: usize = 0;
    while i < ts.len()
        invariant
            tsv == seq_views_of(ts@),
            tsv.len() == ts@.len(),
            i <= ts.len(),
            r@ == display_list_v(tsv.take(i as int)),
        decreases ts.len() - i,
    {
        proof {
            lemma_seq_views_of(ts@);
        }
        let piece = ty_to_str(&ts[i]);
        if i > 0 {
            r.append(", ");
        }
        r.append(piece.as_str());
        i = i + 1;
        proof {
            assert(tsv.take(i as int).drop_last() =~= tsv.take(i - 1));
            assert(tsv.take(i as int).last() == tsv[i - 1]);
            if i == 1 {
                assert(r@ == display_list_v(tsv.take(i as int)));
            } else {
                assert(r@ == display_list_v(tsv.take(i as int)));
            }
        }
    }
    proof {
        assert(tsv.take(ts@.len() as int) =~= tsv);
    }
    r
}

impl Approximation {
    /// The rendering of this approximation.
    pub fn to_str(&self) -> (r: String)
        ensures
            r@ == "Approximation: "@ + self@.category + " = "@ + self@.message,
    {
        let mut r = str_to_string("Approximation: ");
        r.append(self.category);
        r.append(" = ");
        r.append(self.message.as_str());
        r
    }
}

} // verus!
