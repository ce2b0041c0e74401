//! The intersection test: if values of two types are checked against each
//! other, might the check succeed?  Permissive by design: `Any` and `Never`
//! intersect everything, and a union intersects whenever any alternative
//! does.
//!
//! The oracle supplies the element type of an iterable; since nothing bounds
//! what it answers, that one step is depth-limited, and the test stays
//! permissive when the limit is reached.

use vstd::prelude::*;
use crate::cmp::{custom_kind_v, custom_rank_v, ty_eq};
use crate::union::{lemma_seq_wf_v, seq_union_members_ok, seq_wf_v, union_member_ok, wf_v};
use crate::oracle::{TypingAttr, TypingAttrV, TypingOracle};
use crate::strings::str_eq;
use crate::ty::{
    as_name_v, lemma_seq_views_of, lemma_view_custom, seq_views_of, ty_view, Ty, TyCustom,
    TyCustomV, TyV,
};

verus! {

/// How many oracle-supplied iteration steps the test will follow.
pub const ITER_PROBE_DEPTH: u64 = 32;

/// Whether two types might intersect.
pub open spec fn intersects_v<O: TypingOracle>(a: TyV, b: TyV, o: &O, fuel: nat) -> bool
    decreases fuel, a, b, 3int,
{
    if a == TyV::Any || a == TyV::Never || b == TyV::Any || b == TyV::Never {
        true
    } else {
        match (a, b) {
            (TyV::Union(ms), _) => any_left_v(ms, b, o, fuel),
            (_, TyV::Union(ns)) => any_right_v(a, ns, o, fuel),
            _ => pair_intersects_v(a, b, o, fuel),
        }
    }
}

/// Whether any alternative on the left intersects the right type.
pub open spec fn any_left_v<O: TypingOracle>(ms: Seq<TyV>, b: TyV, o: &O, fuel: nat) -> bool
    decreases fuel, ms, b, 2int,
{
    if ms.len() == 0 {
        false
    } else {
        intersects_v(ms[0], b, o, fuel) || any_left_v(ms.drop_first(), b, o, fuel)
    }
}

/// Whether the left type intersects any alternative on the right.
pub open spec fn any_right_v<O: TypingOracle>(a: TyV, ns: Seq<TyV>, o: &O, fuel: nat) -> bool
    decreases fuel, a, ns, 2int,
{
    if ns.len() == 0 {
        false
    } else {
        intersects_v(a, ns[0], o, fuel) || any_right_v(a, ns.drop_first(), o, fuel)
    }
}

/// Whether two non-union types might intersect.
pub open spec fn pair_intersects_v<O: TypingOracle>(x: TyV, y: TyV, o: &O, fuel: nat) -> bool
    decreases fuel, x, y, 1int,
{
    match (x, y) {
        (TyV::Name(a), TyV::Name(b)) => a == b || o.subtype_spec(a, b) || o.subtype_spec(b, a),
        (TyV::List(a), TyV::List(b)) => intersects_v(*a, *b, o, fuel),
        (TyV::Dict(k1, v1), TyV::Dict(k2, v2)) => intersects_v(*k1, *k2, o, fuel)
            && intersects_v(*v1, *v2, o, fuel),
        (TyV::Tuple(xs), TyV::Tuple(ys)) => y == TyV::Name("tuple"@) || (xs.len() == ys.len()
            && zip_all_v(xs, ys, o, fuel)),
        (TyV::Tuple(_), t) => t == TyV::Name("tuple"@),
        (t, TyV::Tuple(_)) => t == TyV::Name("tuple"@),
        (TyV::Iter(a), TyV::Iter(b)) => intersects_v(*a, *b, o, fuel),
        (TyV::Iter(a), other) => match o.attribute_spec(other, TypingAttrV::Iter) {
            Option::Some(Result::Ok(yy)) => if fuel == 0 {
                true
            } else {
                intersects_v(*a, yy, o, (fuel - 1) as nat)
            },
            _ => false,
        },
        (other, TyV::Iter(b)) => match o.attribute_spec(other, TypingAttrV::Iter) {
            Option::Some(Result::Ok(xx)) => if fuel == 0 {
                true
            } else {
                intersects_v(*b, xx, o, (fuel - 1) as nat)
            },
            _ => false,
        },
        (TyV::Custom(cx), TyV::Custom(cy)) => custom_intersects_v(cx, cy),
        _ => (as_name_v(x) == Option::Some("function"@) && as_name_v(y) == Option::Some(
            "function"@,
        )) || x == y,
    }
}

/// Whether each pair of corresponding elements intersects.
pub open spec fn zip_all_v<O: TypingOracle>(xs: Seq<TyV>, ys: Seq<TyV>, o: &O, fuel: nat) -> bool
    decreases fuel, xs, ys, 0int,
{
    if xs.len() == 0 || ys.len() == 0 {
        true
    } else {
        intersects_v(xs[0], ys[0], o, fuel) && zip_all_v(xs.drop_first(), ys.drop_first(), o, fuel)
    }
}

/// Whether two custom types might intersect: two functions always do, and
/// two customs of the same implementation always do.
pub open spec fn custom_intersects_v(cx: TyCustomV, cy: TyCustomV) -> bool {
    (as_name_v(TyV::Custom(cx)) == Option::Some("function"@) && as_name_v(TyV::Custom(cy))
        == Option::Some("function"@)) || (custom_kind_v(cx) == custom_kind_v(cy) && custom_rank_v(
        cx,
    ) == custom_rank_v(cy))
}

/// Intersection is permissive: `Any` and `Never` intersect every type, on
/// both sides.
pub proof fn lemma_intersects_permissive<O: TypingOracle>(t: TyV, o: &O, fuel: nat)
    ensures
        intersects_v(TyV::Any, t, o, fuel),
        intersects_v(TyV::Never, t, o, fuel),
        intersects_v(t, TyV::Any, o, fuel),
        intersects_v(t, TyV::Never, o, fuel),
{
}

impl Ty {
    /// If values of these two types are checked against each other, might
    /// the check succeed?  `Any` and `Never` intersect everything; a union
    /// intersects whenever some alternative does; structural types recurse
    /// into their element types; names intersect when equal or related by
    /// oracle-reported subtyping either way; two function types always
    /// intersect.
    pub fn intersects<O: TypingOracle>(&self, other: &Ty, oracle: &O) -> (r: bool)
        ensures
            r == intersects_v(self@, other@, oracle, ITER_PROBE_DEPTH as nat),
    {
        intersects_fuel(self, other, oracle, ITER_PROBE_DEPTH)
    }

    /// Whether this type could be a list: false for `Never`, else whether it
    /// intersects the type of lists.
    pub fn probably_a_list<O: TypingOracle>(&self, oracle: &O) -> (r: bool)
        ensures
            r == (self@ != TyV::Never && intersects_v(
                self@,
                TyV::List(Box::new(TyV::Any)),
                oracle,
                ITER_PROBE_DEPTH as nat,
            )),
    {
        if self.is_never() {
            return false;
        }
        let probe = Ty::List(Box::new(Ty::Any));
        proof {
            reveal_with_fuel(ty_view, 2);
            assert(probe@ == TyV::List(Box::new(TyV::Any)));
        }
        self.intersects(&probe, oracle)
    }
}

/// The depth-limited intersection test.
fn intersects_fuel<O: TypingOracle>(a: &Ty, b: &Ty, o: &O, fuel: u64) -> (r: bool)
    ensures
        r == intersects_v(a@, b@, o, fuel as nat),
    decreases fuel, *a, *b, 3int,
{
    if a.is_any() || a.is_never() || b.is_any() || b.is_never() {
        return true;
    }
    match (a, b) {
        (Ty::Union(u), _) => any_left(&u.alternatives, b, o, fuel),
        (_, Ty::Union(u)) => any_right(a, &u.alternatives, o, fuel),
        _ => pair_intersects(a, b, o, fuel),
    }
}

/// Whether any alternative on the left intersects the right type.
fn any_left<O: TypingOracle>(ms: &Vec<Ty>, b: &Ty, o: &O, fuel: u64) -> (r: bool)
    ensures
        r == any_left_v(seq_views_of(ms@), b@, o, fuel as nat),
    decreases fuel, *ms, *b, 2int,
{
    let ghost msv = seq_views_of(ms@);
    proof {
        lemma_seq_views_of(ms@);
        assert(msv.skip(0) =~= msv);
    }
    let mut i: usize = 0;
    while i < ms.len()
        invariant
            msv == seq_views_of(ms@),
            msv.len() == ms@.len(),
            i <= ms.len(),
            forall|j: int| 0 <= j < ms@.len() ==> #[trigger] msv[j] == ty_view(ms@[j]),
            any_left_v(msv, b@, o, fuel as nat) == any_left_v(
                msv.skip(i as int),
                b@,
                o,
                fuel as nat,
            ),
        decreases ms.len() - i,
    {
        let hit = intersects_fuel(&ms[i], b, o, fuel);
        proof {
            assert(msv.skip(i as int)[0] == msv[i as int]);
            assert(msv.skip(i as int).drop_first() =~= msv.skip(i + 1));
        }
        if hit {
            return true;
        }
        i = i + 1;
    }
    proof {
        assert(msv.skip(ms@.len() as int).len() == 0);
    }
    false
}

/// Whether the left type intersects any alternative on the right.
fn any_right<O: TypingOracle>(a: &Ty, ns: &Vec<Ty>, o: &O, fuel: u64) -> (r: bool)
    ensures
        r == any_right_v(a@, seq_views_of(ns@), o, fuel as nat),
    decreases fuel, *a, *ns, 2int,
{
    let ghost nsv = seq_views_of(ns@);
    proof {
        lemma_seq_views_of(ns@);
        assert(nsv.skip(0) =~= nsv);
    }
    let mut i: usize = 0;
    while i < ns.len()
        invariant
            nsv == seq_views_of(ns@),
            nsv.len() == ns@.len(),
            i <= ns.len(),
            forall|j: int| 0 <= j < ns@.len() ==> #[trigger] nsv[j] == ty_view(ns@[j]),
            any_right_v(a@, nsv, o, fuel as nat) == any_right_v(
                a@,
                nsv.skip(i as int),
                o,
                fuel as nat,
            ),
        decreases ns.len() - i,
    {
        let hit = intersects_fuel(a, &ns[i], o, fuel);
        proof {
            assert(nsv.skip(i as int)[0] == nsv[i as int]);
            assert(nsv.skip(i as int).drop_first() =~= nsv.skip(i + 1));
        }
        if hit {
            return true;
        }
        i = i + 1;
    }
    proof {
        assert(nsv.skip(ns@.len() as int).len() == 0);
    }
    false
}

/// Whether each pair of corresponding elements intersects.
fn zip_all<O: TypingOracle>(xs: &Vec<Ty>, ys: &Vec<Ty>, o: &O, fuel: u64) -> (r: bool)
    requires
        xs@.len() == ys@.len(),
    ensures
        r == zip_all_v(seq_views_of(xs@), seq_views_of(ys@), o, fuel as nat),
    decreases fuel, *xs, *ys, 0int,
{
    let ghost xsv = seq_views_of(xs@);
    let ghost ysv = seq_views_of(ys@);
    proof {
        lemma_seq_views_of(xs@);
        lemma_seq_views_of(ys@);
        assert(xsv.skip(0) =~= xsv);
        assert(ysv.skip(0) =~= ysv);
    }
    let mut i: usize = 0;
    while i < xs.len()
        invariant
            xsv == seq_views_of(xs@),
            ysv == seq_views_of(ys@),
            xsv.len() == xs@.len(),
            ysv.len() == ys@.len(),
            xs@.len() == ys@.len(),
            i <= xs.len(),
            forall|j: int| 0 <= j < xs@.len() ==> #[trigger] xsv[j] == ty_view(xs@[j]),
            forall|j: int| 0 <= j < ys@.len() ==> #[trigger] ysv[j] == ty_view(ys@[j]),
            zip_all_v(xsv, ysv, o, fuel as nat) == zip_all_v(
                xsv.skip(i as int),
                ysv.skip(i as int),
                o,
                fuel as nat,
            ),
        decreases xs.len() - i,
    {
        let ok = intersects_fuel(&xs[i], &ys[i], o, fuel);
        proof {
            assert(xsv.skip(i as int)[0] == xsv[i as int]);
            assert(ysv.skip(i as int)[0] == ysv[i as int]);
            assert(xsv.skip(i as int).drop_first() =~= xsv.skip(i + 1));
            assert(ysv.skip(i as int).drop_first() =~= ysv.skip(i + 1));
        }
        if !ok {
            return false;
        }
        i = i + 1;
    }
    proof {
        assert(xsv.skip(xs@.len() as int).len() == 0);
    }
    true
}

/// The depth-limited intersection test for two non-union types.
#[verifier::rlimit(60)]
fn pair_intersects<O: TypingOracle>(x: &Ty, y: &Ty, o: &O, fuel: u64) -> (r: bool)
    ensures
        r == pair_intersects_v(x@, y@, o, fuel as nat),
    decreases fuel, *x, *y, 1int,
{
    match (x, y) {
        (Ty::Name(a), Ty::Name(b)) => {
            proof {
                assert(x@ == TyV::Name(a@));
                assert(y@ == TyV::Name(b@));
                assert(pair_intersects_v(x@, y@, o, fuel as nat) == (a@ == b@
                    || o.subtype_spec(a@, b@) || o.subtype_spec(b@, a@)));
            }
            if str_eq(a.as_str(), b.as_str()) {
                true
            } else if o.subtype(a, b) {
                true
            } else {
                let r2 = o.subtype(b, a);
                proof {
                    assert(r2 == o.subtype_spec(b@, a@));
                }
                r2
            }
        },
        (Ty::List(a), Ty::List(b)) => {
            proof {
                assert(x@ == TyV::List(Box::new(ty_view(**a))));
                assert(pair_intersects_v(x@, y@, o, fuel as nat) == intersects_v(
                    a@,
                    b@,
                    o,
                    fuel as nat,
                ));
            }
            intersects_fuel(a, b, o, fuel)
        },
        (Ty::Dict(x1), Ty::Dict(y1)) => {
            proof {
                assert(pair_intersects_v(x@, y@, o, fuel as nat) == (intersects_v(
                    x1.0@,
                    y1.0@,
                    o,
                    fuel as nat,
                ) && intersects_v(x1.1@, y1.1@, o, fuel as nat)));
            }
            let ks = intersects_fuel(&x1.0, &y1.0, o, fuel);
            if !ks {
                return false;
            }
            intersects_fuel(&x1.1, &y1.1, o, fuel)
        },
        (Ty::Tuple(xs), Ty::Tuple(ys)) => {
            proof {
                lemma_seq_views_of(xs@);
                lemma_seq_views_of(ys@);
            }
            if y.is_name("tuple") {
                return true;
            }
            if xs.len() == ys.len() {
                zip_all(xs, ys, o, fuel)
            } else {
                false
            }
        },
        (Ty::Tuple(_), t) => t.is_name("tuple"),
        (t, Ty::Tuple(_)) => t.is_name("tuple"),
        (Ty::Iter(a), Ty::Iter(b)) => intersects_fuel(a, b, o, fuel),
        (Ty::Iter(a), _) => {
            match o.attribute(y, &TypingAttr::Iter) {
                Option::Some(Result::Ok(yy)) => {
                    if fuel == 0 {
                        true
                    } else {
                        intersects_fuel(a, &yy, o, fuel - 1)
                    }
                },
                _ => false,
            }
        },
        (_, Ty::Iter(b)) => {
            match o.attribute(x, &TypingAttr::Iter) {
                Option::Some(Result::Ok(xx)) => {
                    if fuel == 0 {
                        true
                    } else {
                        intersects_fuel(b, &xx, o, fuel - 1)
                    }
                },
                _ => false,
            }
        },
        (Ty::Custom(cx), Ty::Custom(cy)) => {
            proof {
                lemma_view_custom(*cx);
                lemma_view_custom(*cy);
            }
            let fx = name_is_function(x);
            let fy = name_is_function(y);
            if fx && fy {
                return true;
            }
            custom_same_impl(cx, cy)
        },
        _ => {
            let fx = name_is_function(x);
            let fy = name_is_function(y);
            if fx && fy {
                true
            } else {
                ty_eq(x, y)
            }
        },
    }
}

/// Whether a type reports the name `function`.
fn name_is_function(t: &Ty) -> (r: bool)
    ensures
        r == (as_name_v(t@) == Option::Some("function"@)),
{
    match t.as_name() {
        Option::Some(s) => str_eq(s, "function"),
        Option::None => false,
    }
}

/// Whether two custom types are of the same implementation.
fn custom_same_impl(cx: &TyCustom, cy: &TyCustom) -> (r: bool)
    ensures
        r == (custom_kind_v(cx@) == custom_kind_v(cy@) && custom_rank_v(cx@) == custom_rank_v(
            cy@,
        )),
{
    let kx = match cx {
        TyCustom::Function(_) => "function",
        TyCustom::Opaque(o) => o.kind.as_str(),
    };
    let ky = match cy {
        TyCustom::Function(_) => "function",
        TyCustom::Opaque(o) => o.kind.as_str(),
    };
    if !str_eq(kx, ky) {
        return false;
    }
    match (cx, cy) {
        (TyCustom::Function(_), TyCustom::Function(_)) => true,
        (TyCustom::Opaque(_), TyCustom::Opaque(_)) => true,
        _ => false,
    }
}


/// What the search over left alternatives means.
proof fn lemma_any_left_iff<O: TypingOracle>(ms: Seq<TyV>, b: TyV, o: &O, fuel: nat)
    ensures
        any_left_v(ms, b, o, fuel) <==> exists|i: int|
            0 <= i < ms.len() && intersects_v(#[trigger] ms[i], b, o, fuel),
    decreases ms.len(),
{
    if ms.len() == 0 {
    } else {
        lemma_any_left_iff(ms.drop_first(), b, o, fuel);
        if any_left_v(ms, b, o, fuel) {
            if intersects_v(ms[0], b, o, fuel) {
            } else {
                let i = choose|i: int|
                    0 <= i < ms.drop_first().len() && intersects_v(
                        #[trigger] ms.drop_first()[i],
                        b,
                        o,
                        fuel,
                    );
                assert(ms[i + 1] == ms.drop_first()[i]);
            }
        }
        if exists|i: int| 0 <= i < ms.len() && intersects_v(#[trigger] ms[i], b, o, fuel) {
            let i = choose|i: int| 0 <= i < ms.len() && intersects_v(#[trigger] ms[i], b, o, fuel);
            if i > 0 {
                assert(ms.drop_first()[i - 1] == ms[i]);
            }
        }
    }
}

/// What the search over right alternatives means.
proof fn lemma_any_right_iff<O: TypingOracle>(a: TyV, ns: Seq<TyV>, o: &O, fuel: nat)
    ensures
        any_right_v(a, ns, o, fuel) <==> exists|j: int|
            0 <= j < ns.len() && intersects_v(a, #[trigger] ns[j], o, fuel),
    decreases ns.len(),
{
    if ns.len() == 0 {
    } else {
        lemma_any_right_iff(a, ns.drop_first(), o, fuel);
        if any_right_v(a, ns, o, fuel) {
            if intersects_v(a, ns[0], o, fuel) {
            } else {
                let j = choose|j: int|
                    0 <= j < ns.drop_first().len() && intersects_v(
                        a,
                        #[trigger] ns.drop_first()[j],
                        o,
                        fuel,
                    );
                assert(ns[j + 1] == ns.drop_first()[j]);
            }
        }
        if exists|j: int| 0 <= j < ns.len() && intersects_v(a, #[trigger] ns[j], o, fuel) {
            let j = choose|j: int| 0 <= j < ns.len() && intersects_v(a, #[trigger] ns[j], o, fuel);
            if j > 0 {
                assert(ns.drop_first()[j - 1] == ns[j]);
            }
        }
    }
}

/// The intersection test is symmetric on valid types: both argument orders
/// answer alike.  Validity is needed: a malformed empty union and a
/// malformed union holding `Any` answer differently by order.
pub proof fn lemma_intersects_symmetric<O: TypingOracle>(a: TyV, b: TyV, o: &O, fuel: nat)
    requires
        wf_v(a),
        wf_v(b),
    ensures
        intersects_v(a, b, o, fuel) == intersects_v(b, a, o, fuel),
    decreases fuel, a, b, 3int,
{
    if a == TyV::Any || a == TyV::Never || b == TyV::Any || b == TyV::Never {
    } else {
        match (a, b) {
            (TyV::Union(ms), TyV::Union(ns)) => {
                lemma_seq_wf_v(ms);
                lemma_seq_wf_v(ns);
                lemma_any_left_iff(ms, b, o, fuel);
                lemma_any_left_iff(ns, a, o, fuel);
                if intersects_v(a, b, o, fuel) {
                    let i = choose|i: int|
                        0 <= i < ms.len() && intersects_v(#[trigger] ms[i], b, o, fuel);
                    assert(union_member_ok(ms[i]));
                    lemma_any_right_iff(ms[i], ns, o, fuel);
                    let j = choose|j: int|
                        0 <= j < ns.len() && intersects_v(ms[i], #[trigger] ns[j], o, fuel);
                    assert(union_member_ok(ns[j]));
                    lemma_intersects_symmetric(ms[i], ns[j], o, fuel);
                    lemma_any_right_iff(ns[j], ms, o, fuel);
                    assert(intersects_v(ns[j], a, o, fuel));
                }
                if intersects_v(b, a, o, fuel) {
                    let j = choose|j: int|
                        0 <= j < ns.len() && intersects_v(#[trigger] ns[j], a, o, fuel);
                    assert(union_member_ok(ns[j]));
                    lemma_any_right_iff(ns[j], ms, o, fuel);
                    let i = choose|i: int|
                        0 <= i < ms.len() && intersects_v(ns[j], #[trigger] ms[i], o, fuel);
                    assert(union_member_ok(ms[i]));
                    lemma_intersects_symmetric(ms[i], ns[j], o, fuel);
                    lemma_any_right_iff(ms[i], ns, o, fuel);
                    assert(intersects_v(ms[i], b, o, fuel));
                }
            },
            (TyV::Union(ms), _) => {
                lemma_seq_wf_v(ms);
                lemma_any_left_iff(ms, b, o, fuel);
                lemma_any_right_iff(b, ms, o, fuel);
                if intersects_v(a, b, o, fuel) {
                    let i = choose|i: int|
                        0 <= i < ms.len() && intersects_v(#[trigger] ms[i], b, o, fuel);
                    lemma_intersects_symmetric(ms[i], b, o, fuel);
                }
                if intersects_v(b, a, o, fuel) {
                    let i = choose|i: int|
                        0 <= i < ms.len() && intersects_v(b, #[trigger] ms[i], o, fuel);
                    lemma_intersects_symmetric(ms[i], b, o, fuel);
                }
            },
            (_, TyV::Union(ns)) => {
                lemma_seq_wf_v(ns);
                lemma_any_right_iff(a, ns, o, fuel);
                lemma_any_left_iff(ns, a, o, fuel);
                if intersects_v(a, b, o, fuel) {
                    let j = choose|j: int|
                        0 <= j < ns.len() && intersects_v(a, #[trigger] ns[j], o, fuel);
                    lemma_intersects_symmetric(a, ns[j], o, fuel);
                }
                if intersects_v(b, a, o, fuel) {
                    let j = choose|j: int|
                        0 <= j < ns.len() && intersects_v(#[trigger] ns[j], a, o, fuel);
                    lemma_intersects_symmetric(a, ns[j], o, fuel);
                }
            },
            _ => {
                lemma_pair_symmetric(a, b, o, fuel);
            },
        }
    }
}

/// The non-union pair test is symmetric on valid types.
proof fn lemma_pair_symmetric<O: TypingOracle>(x: TyV, y: TyV, o: &O, fuel: nat)
    requires
        wf_v(x),
        wf_v(y),
        !(x is Union),
        !(y is Union),
    ensures
        pair_intersects_v(x, y, o, fuel) == pair_intersects_v(y, x, o, fuel),
    decreases fuel, x, y, 1int,
{
    match (x, y) {
        (TyV::List(a), TyV::List(b)) => {
            lemma_intersects_symmetric(*a, *b, o, fuel);
        },
        (TyV::Dict(k1, v1), TyV::Dict(k2, v2)) => {
            lemma_intersects_symmetric(*k1, *k2, o, fuel);
            lemma_intersects_symmetric(*v1, *v2, o, fuel);
        },
        (TyV::Tuple(xs), TyV::Tuple(ys)) => {
            if xs.len() == ys.len() {
                lemma_zip_symmetric(xs, ys, o, fuel);
            }
        },
        (TyV::Iter(a), TyV::Iter(b)) => {
            lemma_intersects_symmetric(*a, *b, o, fuel);
        },
        _ => {},
    }
}

/// The componentwise test is symmetric on valid types.
proof fn lemma_zip_symmetric<O: TypingOracle>(xs: Seq<TyV>, ys: Seq<TyV>, o: &O, fuel: nat)
    requires
        seq_wf_v(xs),
        seq_wf_v(ys),
    ensures
        zip_all_v(xs, ys, o, fuel) == zip_all_v(ys, xs, o, fuel),
    decreases fuel, xs, ys, 0int,
{
    if xs.len() == 0 || ys.len() == 0 {
    } else {
        lemma_seq_wf_v(xs);
        lemma_seq_wf_v(ys);
        assert(seq_wf_v(xs.drop_first())) by {
            lemma_seq_wf_v(xs.drop_first());
            assert(forall|i: int|
                0 <= i < xs.drop_first().len() ==> #[trigger] xs.drop_first()[i] == xs[i + 1]);
        }
        assert(seq_wf_v(ys.drop_first())) by {
            lemma_seq_wf_v(ys.drop_first());
            assert(forall|i: int|
                0 <= i < ys.drop_first().len() ==> #[trigger] ys.drop_first()[i] == ys[i + 1]);
        }
        lemma_intersects_symmetric(xs[0], ys[0], o, fuel);
        lemma_zip_symmetric(xs.drop_first(), ys.drop_first(), o, fuel);
    }
}

} // verus!