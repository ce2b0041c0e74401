//! A total order on types.
//!
//! The union constructor keeps its alternatives sorted and deduplicated, so
//! the algebra needs a stable, total order on [`Ty`].  Types are ordered
//! first by variant, then by their contents; custom types are ordered by the
//! name of their implementation kind first, so that the order stays stable
//! across distinct implementations.

use vstd::prelude::*;
use crate::strings::{cmp_chars, lemma_cmp_chars_properties, lemma_cmp_chars_trans, str_cmp};
use crate::ty::{lemma_seq_params_views_of, lemma_seq_views_of, param_view, seq_params_views_of, seq_views_of, Param, ParamMode, ParamModeV, ParamV, Ty, TyCustom, TyCustomV, TyFunction, TyFunctionV, TyV};

verus! {

/// The rank of a variant: the primary comparison key.
pub open spec fn rank_v(t: TyV) -> int {
    match t {
        TyV::Never => 0int,
        TyV::Any => 1int,
        TyV::Union(_) => 2int,
        TyV::Name(_) => 3int,
        TyV::Iter(_) => 4int,
        TyV::List(_) => 5int,
        TyV::Tuple(_) => 6int,
        TyV::Dict(_, _) => 7int,
        TyV::Custom(_) => 8int,
    }
}

/// The implementation kind of a custom type: the primary key for ordering
/// custom types, stable across distinct implementations.
pub open spec fn custom_kind_v(c: TyCustomV) -> Seq<char> {
    match c {
        TyCustomV::Function(_) => "function"@,
        TyCustomV::Opaque(o) => o.kind,
    }
}

/// The rank of a custom variant, the tiebreak when two distinct custom
/// implementations share a kind name.
pub open spec fn custom_rank_v(c: TyCustomV) -> int {
    match c {
        TyCustomV::Function(_) => 0int,
        TyCustomV::Opaque(_) => 1int,
    }
}

/// Total comparison of two types: `-1`, `0` or `1`.
pub open spec fn cmp_ty(a: TyV, b: TyV) -> int
    decreases a,
{
    if rank_v(a) != rank_v(b) {
        if rank_v(a) < rank_v(b) {
            -1int
        } else {
            1int
        }
    } else {
        match (a, b) {
            (TyV::Union(x), TyV::Union(y)) => cmp_ty_seq(x, y),
            (TyV::Name(x), TyV::Name(y)) => cmp_chars(x, y),
            (TyV::Iter(x), TyV::Iter(y)) => cmp_ty(*x, *y),
            (TyV::List(x), TyV::List(y)) => cmp_ty(*x, *y),
            (TyV::Tuple(x), TyV::Tuple(y)) => cmp_ty_seq(x, y),
            (TyV::Dict(k1, v1), TyV::Dict(k2, v2)) => {
                let c = cmp_ty(*k1, *k2);
                if c != 0 {
                    c
                } else {
                    cmp_ty(*v1, *v2)
                }
            },
            (TyV::Custom(x), TyV::Custom(y)) => cmp_custom(x, y),
            _ => 0int,
        }
    }
}

/// Lexicographic comparison of two sequences of types.
pub open spec fn cmp_ty_seq(x: Seq<TyV>, y: Seq<TyV>) -> int
    decreases x,
{
    if x.len() == 0 && y.len() == 0 {
        0int
    } else if x.len() == 0 {
        -1int
    } else if y.len() == 0 {
        1int
    } else {
        let c = cmp_ty(x[0], y[0]);
        if c != 0 {
            c
        } else {
            cmp_ty_seq(x.drop_first(), y.drop_first())
        }
    }
}

/// Comparison of two custom types: implementation kind first, then the
/// variant, then the contents.
pub open spec fn cmp_custom(a: TyCustomV, b: TyCustomV) -> int
    decreases a,
{
    let ck = cmp_chars(custom_kind_v(a), custom_kind_v(b));
    if ck != 0 {
        ck
    } else if custom_rank_v(a) != custom_rank_v(b) {
        if custom_rank_v(a) < custom_rank_v(b) {
            -1int
        } else {
            1int
        }
    } else {
        match (a, b) {
            (TyCustomV::Function(f), TyCustomV::Function(g)) => cmp_function(f, g),
            (TyCustomV::Opaque(x), TyCustomV::Opaque(y)) => cmp_opt_chars(x.name, y.name),
            _ => 0int,
        }
    }
}

/// Comparison of two function types.
pub open spec fn cmp_function(f: TyFunctionV, g: TyFunctionV) -> int
    decreases f,
{
    let c = cmp_chars(f.type_attr, g.type_attr);
    if c != 0 {
        c
    } else {
        let cp = cmp_param_seq(f.params, g.params);
        if cp != 0 {
            cp
        } else {
            cmp_ty(*f.result, *g.result)
        }
    }
}

/// Lexicographic comparison of two sequences of parameters.
pub open spec fn cmp_param_seq(x: Seq<ParamV>, y: Seq<ParamV>) -> int
    decreases x,
{
    if x.len() == 0 && y.len() == 0 {
        0int
    } else if x.len() == 0 {
        -1int
    } else if y.len() == 0 {
        1int
    } else {
        let c = cmp_param(x[0], y[0]);
        if c != 0 {
            c
        } else {
            cmp_param_seq(x.drop_first(), y.drop_first())
        }
    }
}

/// Comparison of two parameters.
pub open spec fn cmp_param(p: ParamV, q: ParamV) -> int
    decreases p,
{
    let c = cmp_mode(p.mode, q.mode);
    if c != 0 {
        c
    } else if p.optional != q.optional {
        if !p.optional {
            -1int
        } else {
            1int
        }
    } else {
        cmp_ty(p.ty, q.ty)
    }
}

/// The rank of a parameter mode.
pub open spec fn mode_rank_v(m: ParamModeV) -> int {
    match m {
        ParamModeV::PosOnly => 0int,
        ParamModeV::PosOrName(_) => 1int,
        ParamModeV::NameOnly(_) => 2int,
        ParamModeV::Args => 3int,
        ParamModeV::Kwargs => 4int,
    }
}

/// Comparison of two parameter modes.
pub open spec fn cmp_mode(m: ParamModeV, n: ParamModeV) -> int {
    if mode_rank_v(m) != mode_rank_v(n) {
        if mode_rank_v(m) < mode_rank_v(n) {
            -1int
        } else {
            1int
        }
    } else {
        match (m, n) {
            (ParamModeV::PosOrName(x), ParamModeV::PosOrName(y)) => cmp_chars(x, y),
            (ParamModeV::NameOnly(x), ParamModeV::NameOnly(y)) => cmp_chars(x, y),
            _ => 0int,
        }
    }
}

/// Comparison of two optional names: absence orders first.
pub open spec fn cmp_opt_chars(x: Option<Seq<char>>, y: Option<Seq<char>>) -> int {
    match (x, y) {
        (Option::None, Option::None) => 0int,
        (Option::None, Option::Some(_)) => -1int,
        (Option::Some(_), Option::None) => 1int,
        (Option::Some(a), Option::Some(b)) => cmp_chars(a, b),
    }
}

/// The non-strict order induced by [`cmp_ty`].
pub open spec fn ty_le(a: TyV, b: TyV) -> bool {
    cmp_ty(a, b) <= 0
}

/// The strict order induced by [`cmp_ty`].
pub open spec fn ty_lt(a: TyV, b: TyV) -> bool {
    cmp_ty(a, b) < 0
}

/// `cmp_ty` is within `-1 ..= 1`, reports `0` exactly on equal types,
/// and is antisymmetric.
pub proof fn lemma_cmp_ty_properties(a: TyV, b: TyV)
    ensures
        -1 <= cmp_ty(a, b) <= 1,
        (cmp_ty(a, b) == 0) <==> (a == b),
        cmp_ty(b, a) == -cmp_ty(a, b),
    decreases a,
{
    if rank_v(a) != rank_v(b) {
    } else {
        match (a, b) {
            (TyV::Union(x), TyV::Union(y)) => {
                lemma_cmp_ty_seq_properties(x, y);
            },
            (TyV::Name(x), TyV::Name(y)) => {
                lemma_cmp_chars_properties(x, y);
            },
            (TyV::Iter(x), TyV::Iter(y)) => {
                lemma_cmp_ty_properties(*x, *y);
            },
            (TyV::List(x), TyV::List(y)) => {
                lemma_cmp_ty_properties(*x, *y);
            },
            (TyV::Tuple(x), TyV::Tuple(y)) => {
                lemma_cmp_ty_seq_properties(x, y);
            },
            (TyV::Dict(k1, v1), TyV::Dict(k2, v2)) => {
                lemma_cmp_ty_properties(*k1, *k2);
                lemma_cmp_ty_properties(*v1, *v2);
            },
            (TyV::Custom(x), TyV::Custom(y)) => {
                lemma_cmp_custom_properties(x, y);
            },
            _ => {},
        }
    }
}

/// Sequence version of [`lemma_cmp_ty_properties`].
pub proof fn lemma_cmp_ty_seq_properties(x: Seq<TyV>, y: Seq<TyV>)
    ensures
        -1 <= cmp_ty_seq(x, y) <= 1,
        (cmp_ty_seq(x, y) == 0) <==> (x == y),
        cmp_ty_seq(y, x) == -cmp_ty_seq(x, y),
    decreases x,
{
    if x.len() == 0 && y.len() == 0 {
        assert(x =~= y);
    } else if x.len() == 0 || y.len() == 0 {
    } else {
        lemma_cmp_ty_properties(x[0], y[0]);
        lemma_cmp_ty_seq_properties(x.drop_first(), y.drop_first());
        if cmp_ty_seq(x, y) == 0 {
            assert forall|i: int| 0 <= i < x.len() implies x[i] == y[i] by {
                if i >= 1 {
                    assert(x.drop_first()[i - 1] == y.drop_first()[i - 1]);
                }
            }
            assert(x =~= y);
        }
        if x == y {
            assert(x.drop_first() == y.drop_first());
        }
    }
}

/// Custom-type version of [`lemma_cmp_ty_properties`].
pub proof fn lemma_cmp_custom_properties(a: TyCustomV, b: TyCustomV)
    ensures
        -1 <= cmp_custom(a, b) <= 1,
        (cmp_custom(a, b) == 0) <==> (a == b),
        cmp_custom(b, a) == -cmp_custom(a, b),
    decreases a,
{
    lemma_cmp_chars_properties(custom_kind_v(a), custom_kind_v(b));
    if cmp_chars(custom_kind_v(a), custom_kind_v(b)) == 0 && custom_rank_v(a) == custom_rank_v(b) {
        match (a, b) {
            (TyCustomV::Function(f), TyCustomV::Function(g)) => {
                lemma_cmp_function_properties(f, g);
            },
            (TyCustomV::Opaque(x), TyCustomV::Opaque(y)) => {
                match (x.name, y.name) {
                    (Option::Some(p), Option::Some(q)) => {
                        lemma_cmp_chars_properties(p, q);
                        if cmp_custom(a, b) == 0 {
                            assert(a =~= b);
                        }
                    },
                    _ => {
                        if cmp_custom(a, b) == 0 {
                            assert(a =~= b);
                        }
                    },
                }
            },
            _ => {},
        }
    }
}

/// Function version of [`lemma_cmp_ty_properties`].
pub proof fn lemma_cmp_function_properties(f: TyFunctionV, g: TyFunctionV)
    ensures
        -1 <= cmp_function(f, g) <= 1,
        (cmp_function(f, g) == 0) <==> (f == g),
        cmp_function(g, f) == -cmp_function(f, g),
    decreases f,
{
    lemma_cmp_chars_properties(f.type_attr, g.type_attr);
    lemma_cmp_param_seq_properties(f.params, g.params);
    lemma_cmp_ty_properties(*f.result, *g.result);
    if cmp_function(f, g) == 0 {
        assert(f =~= g);
    }
}

/// Parameter-sequence version of [`lemma_cmp_ty_properties`].
pub proof fn lemma_cmp_param_seq_properties(x: Seq<ParamV>, y: Seq<ParamV>)
    ensures
        -1 <= cmp_param_seq(x, y) <= 1,
        (cmp_param_seq(x, y) == 0) <==> (x == y),
        cmp_param_seq(y, x) == -cmp_param_seq(x, y),
    decreases x,
{
    if x.len() == 0 && y.len() == 0 {
        assert(x =~= y);
    } else if x.len() == 0 || y.len() == 0 {
    } else {
        lemma_cmp_param_properties(x[0], y[0]);
        lemma_cmp_param_seq_properties(x.drop_first(), y.drop_first());
        if cmp_param_seq(x, y) == 0 {
            assert forall|i: int| 0 <= i < x.len() implies x[i] == y[i] by {
                if i >= 1 {
                    assert(x.drop_first()[i - 1] == y.drop_first()[i - 1]);
                }
            }
            assert(x =~= y);
        }
        if x == y {
            assert(x.drop_first() == y.drop_first());
        }
    }
}

/// Parameter version of [`lemma_cmp_ty_properties`].
pub proof fn lemma_cmp_param_properties(p: ParamV, q: ParamV)
    ensures
        -1 <= cmp_param(p, q) <= 1,
        (cmp_param(p, q) == 0) <==> (p == q),
        cmp_param(q, p) == -cmp_param(p, q),
    decreases p,
{
    lemma_cmp_mode_properties(p.mode, q.mode);
    lemma_cmp_ty_properties(p.ty, q.ty);
    if cmp_param(p, q) == 0 {
        assert(p =~= q);
    }
}

/// Mode version of [`lemma_cmp_ty_properties`].
pub proof fn lemma_cmp_mode_properties(m: ParamModeV, n: ParamModeV)
    ensures
        -1 <= cmp_mode(m, n) <= 1,
        (cmp_mode(m, n) == 0) <==> (m == n),
        cmp_mode(n, m) == -cmp_mode(m, n),
{
    match (m, n) {
        (ParamModeV::PosOrName(x), ParamModeV::PosOrName(y)) => {
            lemma_cmp_chars_properties(x, y);
        },
        (ParamModeV::NameOnly(x), ParamModeV::NameOnly(y)) => {
            lemma_cmp_chars_properties(x, y);
        },
        _ => {},
    }
}

/// `cmp_ty` is transitive, strictly where either step is strict.
pub proof fn lemma_cmp_ty_trans(a: TyV, b: TyV, c: TyV)
    requires
        cmp_ty(a, b) <= 0,
        cmp_ty(b, c) <= 0,
    ensures
        cmp_ty(a, c) <= 0,
        cmp_ty(a, b) < 0 || cmp_ty(b, c) < 0 ==> cmp_ty(a, c) < 0,
    decreases a,
{
    lemma_cmp_ty_properties(a, b);
    lemma_cmp_ty_properties(b, c);
    lemma_cmp_ty_properties(a, c);
    if a == b || b == c {
    } else if rank_v(a) != rank_v(b) || rank_v(b) != rank_v(c) {
    } else {
        match (a, b, c) {
            (TyV::Union(x), TyV::Union(y), TyV::Union(z)) => {
                lemma_cmp_ty_seq_trans(x, y, z);
            },
            (TyV::Name(x), TyV::Name(y), TyV::Name(z)) => {
                lemma_cmp_chars_trans(x, y, z);
            },
            (TyV::Iter(x), TyV::Iter(y), TyV::Iter(z)) => {
                lemma_cmp_ty_trans(*x, *y, *z);
            },
            (TyV::List(x), TyV::List(y), TyV::List(z)) => {
                lemma_cmp_ty_trans(*x, *y, *z);
            },
            (TyV::Tuple(x), TyV::Tuple(y), TyV::Tuple(z)) => {
                lemma_cmp_ty_seq_trans(x, y, z);
            },
            (TyV::Dict(k1, v1), TyV::Dict(k2, v2), TyV::Dict(k3, v3)) => {
                lemma_cmp_ty_properties(*k1, *k2);
                lemma_cmp_ty_properties(*k2, *k3);
                lemma_cmp_ty_properties(*k1, *k3);
                if cmp_ty(*k1, *k2) == 0 && cmp_ty(*k2, *k3) == 0 {
                    lemma_cmp_ty_trans(*v1, *v2, *v3);
                } else if cmp_ty(*k1, *k2) <= 0 && cmp_ty(*k2, *k3) <= 0 {
                    lemma_cmp_ty_trans(*k1, *k2, *k3);
                }
            },
            (TyV::Custom(x), TyV::Custom(y), TyV::Custom(z)) => {
                lemma_cmp_custom_trans(x, y, z);
            },
            _ => {},
        }
    }
}

/// Sequence version of [`lemma_cmp_ty_trans`].
pub proof fn lemma_cmp_ty_seq_trans(x: Seq<TyV>, y: Seq<TyV>, z: Seq<TyV>)
    requires
        cmp_ty_seq(x, y) <= 0,
        cmp_ty_seq(y, z) <= 0,
    ensures
        cmp_ty_seq(x, z) <= 0,
        cmp_ty_seq(x, y) < 0 || cmp_ty_seq(y, z) < 0 ==> cmp_ty_seq(x, z) < 0,
    decreases x,
{
    lemma_cmp_ty_seq_properties(x, y);
    lemma_cmp_ty_seq_properties(y, z);
    lemma_cmp_ty_seq_properties(x, z);
    if x == y || y == z {
    } else if x.len() == 0 {
    } else {
        assert(y.len() > 0);
        assert(z.len() > 0);
        lemma_cmp_ty_properties(x[0], y[0]);
        lemma_cmp_ty_properties(y[0], z[0]);
        lemma_cmp_ty_properties(x[0], z[0]);
        if cmp_ty(x[0], y[0]) == 0 && cmp_ty(y[0], z[0]) == 0 {
            lemma_cmp_ty_seq_trans(x.drop_first(), y.drop_first(), z.drop_first());
        } else if cmp_ty(x[0], y[0]) <= 0 && cmp_ty(y[0], z[0]) <= 0 {
            lemma_cmp_ty_trans(x[0], y[0], z[0]);
        }
    }
}

/// Custom-type version of [`lemma_cmp_ty_trans`].
pub proof fn lemma_cmp_custom_trans(a: TyCustomV, b: TyCustomV, c: TyCustomV)
    requires
        cmp_custom(a, b) <= 0,
        cmp_custom(b, c) <= 0,
    ensures
        cmp_custom(a, c) <= 0,
        cmp_custom(a, b) < 0 || cmp_custom(b, c) < 0 ==> cmp_custom(a, c) < 0,
    decreases a,
{
    lemma_cmp_custom_properties(a, b);
    lemma_cmp_custom_properties(b, c);
    lemma_cmp_custom_properties(a, c);
    if a == b || b == c {
    } else {
        let ka = custom_kind_v(a);
        let kb = custom_kind_v(b);
        let kc = custom_kind_v(c);
        lemma_cmp_chars_properties(ka, kb);
        lemma_cmp_chars_properties(kb, kc);
        lemma_cmp_chars_properties(ka, kc);
        if cmp_chars(ka, kb) == 0 && cmp_chars(kb, kc) == 0 {
            if custom_rank_v(a) == custom_rank_v(b) && custom_rank_v(b) == custom_rank_v(c) {
                match (a, b, c) {
                    (TyCustomV::Function(f), TyCustomV::Function(g), TyCustomV::Function(h)) => {
                        lemma_cmp_function_trans(f, g, h);
                    },
                    (TyCustomV::Opaque(x), TyCustomV::Opaque(y), TyCustomV::Opaque(z)) => {
                        match (x.name, y.name, z.name) {
                            (Option::Some(p), Option::Some(q), Option::Some(r)) => {
                                lemma_cmp_chars_trans(p, q, r);
                            },
                            _ => {},
                        }
                    },
                    _ => {},
                }
            }
        } else if cmp_chars(ka, kb) <= 0 && cmp_chars(kb, kc) <= 0 {
            lemma_cmp_chars_trans(ka, kb, kc);
        }
    }
}

/// Function version of [`lemma_cmp_ty_trans`].
pub proof fn lemma_cmp_function_trans(f: TyFunctionV, g: TyFunctionV, h: TyFunctionV)
    requires
        cmp_function(f, g) <= 0,
        cmp_function(g, h) <= 0,
    ensures
        cmp_function(f, h) <= 0,
        cmp_function(f, g) < 0 || cmp_function(g, h) < 0 ==> cmp_function(f, h) < 0,
    decreases f,
{
    lemma_cmp_function_properties(f, g);
    lemma_cmp_function_properties(g, h);
    lemma_cmp_function_properties(f, h);
    if f == g || g == h {
    } else {
        lemma_cmp_chars_properties(f.type_attr, g.type_attr);
        lemma_cmp_chars_properties(g.type_attr, h.type_attr);
        lemma_cmp_chars_properties(f.type_attr, h.type_attr);
        if cmp_chars(f.type_attr, g.type_attr) == 0 && cmp_chars(g.type_attr, h.type_attr) == 0 {
            lemma_cmp_param_seq_properties(f.params, g.params);
            lemma_cmp_param_seq_properties(g.params, h.params);
            lemma_cmp_param_seq_properties(f.params, h.params);
            if cmp_param_seq(f.params, g.params) == 0 && cmp_param_seq(g.params, h.params) == 0 {
                lemma_cmp_ty_trans(*f.result, *g.result, *h.result);
            } else if cmp_param_seq(f.params, g.params) <= 0 && cmp_param_seq(g.params, h.params)
                <= 0 {
                lemma_cmp_param_seq_trans(f.params, g.params, h.params);
            }
        } else if cmp_chars(f.type_attr, g.type_attr) <= 0 && cmp_chars(g.type_attr, h.type_attr)
            <= 0 {
            lemma_cmp_chars_trans(f.type_attr, g.type_attr, h.type_attr);
        }
    }
}

/// Parameter-sequence version of [`lemma_cmp_ty_trans`].
pub proof fn lemma_cmp_param_seq_trans(x: Seq<ParamV>, y: Seq<ParamV>, z: Seq<ParamV>)
    requires
        cmp_param_seq(x, y) <= 0,
        cmp_param_seq(y, z) <= 0,
    ensures
        cmp_param_seq(x, z) <= 0,
        cmp_param_seq(x, y) < 0 || cmp_param_seq(y, z) < 0 ==> cmp_param_seq(x, z) < 0,
    decreases x,
{
    lemma_cmp_param_seq_properties(x, y);
    lemma_cmp_param_seq_properties(y, z);
    lemma_cmp_param_seq_properties(x, z);
    if x == y || y == z {
    } else if x.len() == 0 {
    } else {
        assert(y.len() > 0);
        assert(z.len() > 0);
        lemma_cmp_param_properties(x[0], y[0]);
        lemma_cmp_param_properties(y[0], z[0]);
        lemma_cmp_param_properties(x[0], z[0]);
        if cmp_param(x[0], y[0]) == 0 && cmp_param(y[0], z[0]) == 0 {
            lemma_cmp_param_seq_trans(x.drop_first(), y.drop_first(), z.drop_first());
        } else if cmp_param(x[0], y[0]) <= 0 && cmp_param(y[0], z[0]) <= 0 {
            lemma_cmp_param_trans(x[0], y[0], z[0]);
        }
    }
}

/// Parameter version of [`lemma_cmp_ty_trans`].
pub proof fn lemma_cmp_param_trans(p: ParamV, q: ParamV, r: ParamV)
    requires
        cmp_param(p, q) <= 0,
        cmp_param(q, r) <= 0,
    ensures
        cmp_param(p, r) <= 0,
        cmp_param(p, q) < 0 || cmp_param(q, r) < 0 ==> cmp_param(p, r) < 0,
    decreases p,
{
    lemma_cmp_param_properties(p, q);
    lemma_cmp_param_properties(q, r);
    lemma_cmp_param_properties(p, r);
    if p == q || q == r {
    } else {
        lemma_cmp_mode_properties(p.mode, q.mode);
        lemma_cmp_mode_properties(q.mode, r.mode);
        lemma_cmp_mode_properties(p.mode, r.mode);
        if cmp_mode(p.mode, q.mode) == 0 && cmp_mode(q.mode, r.mode) == 0 {
            if p.optional == q.optional && q.optional == r.optional {
                lemma_cmp_ty_trans(p.ty, q.ty, r.ty);
            }
        } else if cmp_mode(p.mode, q.mode) <= 0 && cmp_mode(q.mode, r.mode) <= 0 {
            lemma_cmp_mode_trans(p.mode, q.mode, r.mode);
        }
    }
}

/// Mode version of [`lemma_cmp_ty_trans`].
pub proof fn lemma_cmp_mode_trans(m: ParamModeV, n: ParamModeV, o: ParamModeV)
    requires
        cmp_mode(m, n) <= 0,
        cmp_mode(n, o) <= 0,
    ensures
        cmp_mode(m, o) <= 0,
        cmp_mode(m, n) < 0 || cmp_mode(n, o) < 0 ==> cmp_mode(m, o) < 0,
{
    lemma_cmp_mode_properties(m, n);
    lemma_cmp_mode_properties(n, o);
    lemma_cmp_mode_properties(m, o);
    if m == n || n == o {
    } else if mode_rank_v(m) == mode_rank_v(n) && mode_rank_v(n) == mode_rank_v(o) {
        match (m, n, o) {
            (ParamModeV::PosOrName(x), ParamModeV::PosOrName(y), ParamModeV::PosOrName(z)) => {
                lemma_cmp_chars_trans(x, y, z);
            },
            (ParamModeV::NameOnly(x), ParamModeV::NameOnly(y), ParamModeV::NameOnly(z)) => {
                lemma_cmp_chars_trans(x, y, z);
            },
            _ => {},
        }
    }
}


/// `cmp_ty_seq` ignores an equal prefix.
proof fn lemma_cmp_ty_seq_skip(x: Seq<TyV>, y: Seq<TyV>, i: int)
    requires
        0 <= i <= x.len(),
        i <= y.len(),
        forall|j: int| 0 <= j < i ==> x[j] == y[j],
    ensures
        cmp_ty_seq(x, y) == cmp_ty_seq(x.skip(i), y.skip(i)),
    decreases i,
{
    if i == 0 {
        assert(x.skip(0) =~= x);
        assert(y.skip(0) =~= y);
    } else {
        assert(x.len() > 0 && y.len() > 0);
        assert(x[0] == y[0]);
        lemma_cmp_ty_properties(x[0], y[0]);
        lemma_cmp_ty_seq_skip(x.drop_first(), y.drop_first(), i - 1);
        assert(x.drop_first().skip(i - 1) =~= x.skip(i));
        assert(y.drop_first().skip(i - 1) =~= y.skip(i));
    }
}

/// `cmp_param_seq` ignores an equal prefix.
proof fn lemma_cmp_param_seq_skip(x: Seq<ParamV>, y: Seq<ParamV>, i: int)
    requires
        0 <= i <= x.len(),
        i <= y.len(),
        forall|j: int| 0 <= j < i ==> x[j] == y[j],
    ensures
        cmp_param_seq(x, y) == cmp_param_seq(x.skip(i), y.skip(i)),
    decreases i,
{
    if i == 0 {
        assert(x.skip(0) =~= x);
        assert(y.skip(0) =~= y);
    } else {
        assert(x.len() > 0 && y.len() > 0);
        assert(x[0] == y[0]);
        lemma_cmp_param_properties(x[0], y[0]);
        lemma_cmp_param_seq_skip(x.drop_first(), y.drop_first(), i - 1);
        assert(x.drop_first().skip(i - 1) =~= x.skip(i));
        assert(y.drop_first().skip(i - 1) =~= y.skip(i));
    }
}

/// The rank of a type's variant.
fn rank(t: &Ty) -> (r: u8)
    ensures
        r as int == rank_v(t@),
{
    match t {
        Ty::Never => 0,
        Ty::Any => 1,
        Ty::Union(_) => 2,
        Ty::Name(_) => 3,
        Ty::Iter(_) => 4,
        Ty::List(_) => 5,
        Ty::Tuple(_) => 6,
        Ty::Dict(_) => 7,
        Ty::Custom(_) => 8,
    }
}

/// Total comparison of two types: `-1`, `0` or `1`.
pub fn ty_cmp(a: &Ty, b: &Ty) -> (r: i8)
    ensures
        r as int == cmp_ty(a@, b@),
    decreases *a,
{
    let ra = rank(a);
    let rb = rank(b);
    if ra < rb {
        return -1;
    }
    if rb < ra {
        return 1;
    }
    match (a, b) {
        (Ty::Union(x), Ty::Union(y)) => ty_cmp_vec(&x.alternatives, &y.alternatives),
        (Ty::Name(x), Ty::Name(y)) => str_cmp(x.as_str(), y.as_str()),
        (Ty::Iter(x), Ty::Iter(y)) => ty_cmp(x, y),
        (Ty::List(x), Ty::List(y)) => ty_cmp(x, y),
        (Ty::Tuple(x), Ty::Tuple(y)) => ty_cmp_vec(x, y),
        (Ty::Dict(x), Ty::Dict(y)) => {
            let c = ty_cmp(&x.0, &y.0);
            if c != 0 {
                c
            } else {
                ty_cmp(&x.1, &y.1)
            }
        },
        (Ty::Custom(x), Ty::Custom(y)) => custom_cmp(x, y),
        _ => 0,
    }
}

/// Lexicographic comparison of two vectors of types.
fn ty_cmp_vec(x: &Vec<Ty>, y: &Vec<Ty>) -> (r: i8)
    ensures
        r as int == cmp_ty_seq(seq_views_of(x@), seq_views_of(y@)),
    decreases *x,
{
    let ghost xv = seq_views_of(x@);
    let ghost yv = seq_views_of(y@);
    proof {
        lemma_seq_views_of(x@);
        lemma_seq_views_of(y@);
    }
    let n = if x.len() < y.len() {
        x.len()
    } else {
        y.len()
    };
    let mut i: usize = 0;
    while i < n
        invariant
            xv == seq_views_of(x@),
            yv == seq_views_of(y@),
            xv.len() == x@.len(),
            yv.len() == y@.len(),
            n == if x@.len() < y@.len() {
                x@.len()
            } else {
                y@.len()
            },
            i <= n,
            forall|j: int| 0 <= j < i ==> xv[j] == yv[j],
        decreases n - i,
    {
        let c = ty_cmp(&x[i], &y[i]);
        proof {
            lemma_seq_views_of(x@);
            lemma_seq_views_of(y@);
            lemma_cmp_ty_seq_skip(xv, yv, i as int);
            assert(xv.skip(i as int)[0] == xv[i as int]);
            assert(yv.skip(i as int)[0] == yv[i as int]);
        }
        if c != 0 {
            return c;
        }
        proof {
            lemma_cmp_ty_properties(xv[i as int], yv[i as int]);
        }
        i = i + 1;
    }
    proof {
        lemma_cmp_ty_seq_skip(xv, yv, n as int);
    }
    if x.len() < y.len() {
        -1
    } else if y.len() < x.len() {
        1
    } else {
        0
    }
}

/// The implementation kind of a custom type.
fn custom_kind(c: &TyCustom) -> (r: &str)
    ensures
        r@ == custom_kind_v(c@),
{
    match c {
        TyCustom::Function(_) => "function",
        TyCustom::Opaque(o) => o.kind.as_str(),
    }
}

/// Comparison of two custom types.
fn custom_cmp(a: &TyCustom, b: &TyCustom) -> (r: i8)
    ensures
        r as int == cmp_custom(a@, b@),
    decreases *a,
{
    let ck = str_cmp(custom_kind(a), custom_kind(b));
    if ck != 0 {
        return ck;
    }
    match (a, b) {
        (TyCustom::Function(f), TyCustom::Function(g)) => function_cmp(f, g),
        (TyCustom::Opaque(x), TyCustom::Opaque(y)) => {
            match (&x.name, &y.name) {
                (Option::None, Option::None) => 0,
                (Option::None, Option::Some(_)) => -1,
                (Option::Some(_), Option::None) => 1,
                (Option::Some(p), Option::Some(q)) => str_cmp(p.as_str(), q.as_str()),
            }
        },
        (TyCustom::Function(_), TyCustom::Opaque(_)) => -1,
        (TyCustom::Opaque(_), TyCustom::Function(_)) => 1,
    }
}

/// Comparison of two function types.
fn function_cmp(f: &TyFunction, g: &TyFunction) -> (r: i8)
    ensures
        r as int == cmp_function(f@, g@),
    decreases *f,
{
    let c = str_cmp(f.type_attr.as_str(), g.type_attr.as_str());
    if c != 0 {
        return c;
    }
    let cp = param_cmp_vec(&f.params, &g.params);
    if cp != 0 {
        return cp;
    }
    ty_cmp(&f.result, &g.result)
}

/// Lexicographic comparison of two vectors of parameters.
fn param_cmp_vec(x: &Vec<Param>, y: &Vec<Param>) -> (r: i8)
    ensures
        r as int == cmp_param_seq(seq_params_views_of(x@), seq_params_views_of(y@)),
    decreases *x,
{
    let ghost xv = seq_params_views_of(x@);
    let ghost yv = seq_params_views_of(y@);
    proof {
        lemma_seq_params_views_of(x@);
        lemma_seq_params_views_of(y@);
    }
    let n = if x.len() < y.len() {
        x.len()
    } else {
        y.len()
    };
    let mut i: usize = 0;
    while i < n
        invariant
            xv == seq_params_views_of(x@),
            yv == seq_params_views_of(y@),
            xv.len() == x@.len(),
            yv.len() == y@.len(),
            n == if x@.len() < y@.len() {
                x@.len()
            } else {
                y@.len()
            },
            i <= n,
            forall|j: int| 0 <= j < i ==> xv[j] == yv[j],
        decreases n - i,
    {
        let c = param_cmp(&x[i], &y[i]);
        proof {
            lemma_seq_params_views_of(x@);
            lemma_seq_params_views_of(y@);
            lemma_cmp_param_seq_skip(xv, yv, i as int);
            assert(xv.skip(i as int)[0] == xv[i as int]);
            assert(yv.skip(i as int)[0] == yv[i as int]);
        }
        if c != 0 {
            return c;
        }
        proof {
            lemma_cmp_param_properties(xv[i as int], yv[i as int]);
        }
        i = i + 1;
    }
    proof {
        lemma_cmp_param_seq_skip(xv, yv, n as int);
    }
    if x.len() < y.len() {
        -1
    } else if y.len() < x.len() {
        1
    } else {
        0
    }
}

/// Comparison of two parameters.
fn param_cmp(p: &Param, q: &Param) -> (r: i8)
    ensures
        r as int == cmp_param(p@, q@),
    decreases *p,
{
    let c = mode_cmp(&p.mode, &q.mode);
    if c != 0 {
        return c;
    }
    if p.optional != q.optional {
        if !p.optional {
            return -1;
        }
        return 1;
    }
    ty_cmp(&p.ty, &q.ty)
}

/// The rank of a parameter mode.
fn mode_rank(m: &ParamMode) -> (r: u8)
    ensures
        r as int == mode_rank_v(m@),
{
    match m {
        ParamMode::PosOnly => 0,
        ParamMode::PosOrName(_) => 1,
        ParamMode::NameOnly(_) => 2,
        ParamMode::Args => 3,
        ParamMode::Kwargs => 4,
    }
}

/// Comparison of two parameter modes.
fn mode_cmp(m: &ParamMode, n: &ParamMode) -> (r: i8)
    ensures
        r as int == cmp_mode(m@, n@),
{
    let rm = mode_rank(m);
    let rn = mode_rank(n);
    if rm < rn {
        return -1;
    }
    if rn < rm {
        return 1;
    }
    match (m, n) {
        (ParamMode::PosOrName(x), ParamMode::PosOrName(y)) => str_cmp(x.as_str(), y.as_str()),
        (ParamMode::NameOnly(x), ParamMode::NameOnly(y)) => str_cmp(x.as_str(), y.as_str()),
        _ => 0,
    }
}

/// Equality of two types, decided through [`ty_cmp`].
pub fn ty_eq(a: &Ty, b: &Ty) -> (r: bool)
    ensures
        r == (a@ == b@),
{
    let c = ty_cmp(a, b);
    proof {
        lemma_cmp_ty_properties(a@, b@);
    }
    c == 0
}

} // verus!
