//! The union constructor and its normalisation.
//!
//! [`Ty::unions`] is the sole way a union is built.  It flattens nested
//! unions, drops `Never`, collapses to `Any` when `Any` is present, merges
//! all list alternatives into one list (and all dictionary alternatives into
//! one dictionary) of the unioned element types, and keeps the remaining
//! alternatives sorted and deduplicated.

use vstd::prelude::*;
use crate::cmp::{cmp_ty, lemma_cmp_ty_properties, lemma_cmp_ty_trans, ty_cmp};
use crate::strings::cmp_chars;
use crate::ty::{clone_ty, iter_union_v, lemma_seq_views_of, seq_size_v, seq_views_of, size_v, ty_view, ParamV, Ty, TyCustomV, TyFunctionV, TyUnion, TyV};

verus! {

/// One level of flattening: unions contribute their alternatives,
/// `Never` contributes nothing, anything else contributes itself.
pub open spec fn flatten_v(xs: Seq<TyV>) -> Seq<TyV>
    decreases xs.len(),
{
    if xs.len() == 0 {
        Seq::empty()
    } else {
        flatten_v(xs.drop_last()) + iter_union_v(xs.last())
    }
}

/// The element types of the list alternatives, in order.
pub open spec fn list_inners_v(xs: Seq<TyV>) -> Seq<TyV>
    decreases xs.len(),
{
    if xs.len() == 0 {
        Seq::empty()
    } else {
        let rest = list_inners_v(xs.drop_last());
        match xs.last() {
            TyV::List(x) => rest.push(*x),
            _ => rest,
        }
    }
}

/// The key types of the dictionary alternatives, in order.
pub open spec fn dict_keys_v(xs: Seq<TyV>) -> Seq<TyV>
    decreases xs.len(),
{
    if xs.len() == 0 {
        Seq::empty()
    } else {
        let rest = dict_keys_v(xs.drop_last());
        match xs.last() {
            TyV::Dict(k, _) => rest.push(*k),
            _ => rest,
        }
    }
}

/// The value types of the dictionary alternatives, in order.
pub open spec fn dict_vals_v(xs: Seq<TyV>) -> Seq<TyV>
    decreases xs.len(),
{
    if xs.len() == 0 {
        Seq::empty()
    } else {
        let rest = dict_vals_v(xs.drop_last());
        match xs.last() {
            TyV::Dict(_, v) => rest.push(*v),
            _ => rest,
        }
    }
}

/// The alternatives that are neither lists nor dictionaries, in order.
pub open spec fn others_v(xs: Seq<TyV>) -> Seq<TyV>
    decreases xs.len(),
{
    if xs.len() == 0 {
        Seq::empty()
    } else {
        let rest = others_v(xs.drop_last());
        match xs.last() {
            TyV::List(_) => rest,
            TyV::Dict(_, _) => rest,
            _ => rest.push(xs.last()),
        }
    }
}

/// Strictly ascending: sorted with no duplicates.
pub open spec fn sorted_unique_v(s: Seq<TyV>) -> bool {
    forall|i: int, j: int| 0 <= i < j < s.len() ==> cmp_ty(s[i], s[j]) < 0
}

/// Insertion of a type into a strictly ascending sequence; a type that is
/// already present is not inserted again.
pub open spec fn insert_sorted_v(acc: Seq<TyV>, t: TyV) -> Seq<TyV>
    decreases acc.len(),
{
    if acc.len() == 0 {
        seq![t]
    } else if cmp_ty(t, acc[0]) < 0 {
        seq![t] + acc
    } else if cmp_ty(t, acc[0]) == 0 {
        acc
    } else {
        seq![acc[0]] + insert_sorted_v(acc.drop_first(), t)
    }
}

/// Insertion of every element of `xs` in turn.
pub open spec fn insert_all_v(acc: Seq<TyV>, xs: Seq<TyV>) -> Seq<TyV>
    decreases xs.len(),
{
    if xs.len() == 0 {
        acc
    } else {
        insert_all_v(insert_sorted_v(acc, xs[0]), xs.drop_first())
    }
}

/// The normalised union of a sequence of types.
pub open spec fn unions_v(xs: Seq<TyV>) -> TyV
    decreases seq_size_v(xs),
    via unions_v_decreases
{
    let flat = flatten_v(xs);
    if flat.contains(TyV::Any) {
        TyV::Any
    } else {
        let li = list_inners_v(flat);
        let dk = dict_keys_v(flat);
        let dv = dict_vals_v(flat);
        let base = others_v(flat);
        let with_list = if li.len() > 0 {
            base.push(TyV::List(Box::new(unions_v(li))))
        } else {
            base
        };
        let with_dict = if dk.len() > 0 {
            with_list.push(TyV::Dict(Box::new(unions_v(dk)), Box::new(unions_v(dv))))
        } else {
            with_list
        };
        let sorted = insert_all_v(Seq::empty(), with_dict);
        if sorted.len() == 0 {
            TyV::Never
        } else if sorted.len() == 1 {
            sorted[0]
        } else {
            TyV::Union(sorted)
        }
    }
}

#[via_fn]
proof fn unions_v_decreases(xs: Seq<TyV>) {
    lemma_flatten_size(xs);
    lemma_parts_size(flatten_v(xs));
}

/// The size of a concatenation is the sum of the sizes.
pub proof fn lemma_seq_size_concat(a: Seq<TyV>, b: Seq<TyV>)
    ensures
        seq_size_v(a + b) == seq_size_v(a) + seq_size_v(b),
    decreases b.len(),
{
    if b.len() == 0 {
        assert(a + b =~= a);
    } else {
        lemma_seq_size_concat(a, b.drop_last());
        assert((a + b).drop_last() =~= a + b.drop_last());
        assert((a + b).last() == b.last());
    }
}

/// Flattening does not grow the total size.
pub proof fn lemma_flatten_size(xs: Seq<TyV>)
    ensures
        seq_size_v(flatten_v(xs)) <= seq_size_v(xs),
    decreases xs.len(),
{
    if xs.len() > 0 {
        lemma_flatten_size(xs.drop_last());
        lemma_seq_size_concat(flatten_v(xs.drop_last()), iter_union_v(xs.last()));
        assert(seq_size_v(iter_union_v(xs.last())) <= size_v(xs.last())) by {
            match xs.last() {
                TyV::Union(ms) => {
                    assert(iter_union_v(xs.last()) == ms);
                },
                TyV::Never => {
                    assert(iter_union_v(xs.last()).len() == 0);
                },
                _ => {
                    let single = iter_union_v(xs.last());
                    assert(single =~= seq![xs.last()]);
                    assert(single.drop_last() =~= Seq::<TyV>::empty());
                    assert(seq_size_v(single.drop_last()) == 0);
                    assert(single.last() == xs.last());
                    assert(seq_size_v(single) == size_v(xs.last()));
                },
            }
        }
    }
}

/// The extracted parts of a sequence are strictly smaller than it,
/// whenever they are there at all.
pub proof fn lemma_parts_size(f: Seq<TyV>)
    ensures
        seq_size_v(list_inners_v(f)) + list_inners_v(f).len() <= seq_size_v(f),
        seq_size_v(dict_keys_v(f)) + seq_size_v(dict_vals_v(f)) + dict_keys_v(f).len()
            <= seq_size_v(f),
        list_inners_v(f).len() > 0 ==> seq_size_v(list_inners_v(f)) < seq_size_v(f),
        dict_keys_v(f).len() > 0 ==> seq_size_v(dict_keys_v(f)) < seq_size_v(f) && seq_size_v(
            dict_vals_v(f),
        ) < seq_size_v(f),
    decreases f.len(),
{
    if f.len() > 0 {
        lemma_parts_size(f.drop_last());
        let rest = f.drop_last();
        assert(seq_size_v(f) == seq_size_v(rest) + size_v(f.last()));
        assert(size_v(f.last()) >= 1);
        match f.last() {
            TyV::List(x) => {
                assert(list_inners_v(f) == list_inners_v(rest).push(*x));
                assert(list_inners_v(f).drop_last() =~= list_inners_v(rest));
                assert(seq_size_v(list_inners_v(f)) == seq_size_v(list_inners_v(rest)) + size_v(
                    *x,
                ));
            },
            TyV::Dict(k, v) => {
                assert(dict_keys_v(f).drop_last() =~= dict_keys_v(rest));
                assert(dict_vals_v(f).drop_last() =~= dict_vals_v(rest));
                assert(seq_size_v(dict_keys_v(f)) == seq_size_v(dict_keys_v(rest)) + size_v(*k));
                assert(seq_size_v(dict_vals_v(f)) == seq_size_v(dict_vals_v(rest)) + size_v(*v));
            },
            _ => {
                assert(size_v(f.last()) >= 1);
            },
        }
    }
}


/// Insertion keeps a strictly ascending sequence strictly ascending, and
/// its contents are the old contents together with the new element.
pub proof fn lemma_insert_sorted(acc: Seq<TyV>, t: TyV)
    requires
        sorted_unique_v(acc),
    ensures
        sorted_unique_v(insert_sorted_v(acc, t)),
        forall|u: TyV| insert_sorted_v(acc, t).contains(u) <==> (acc.contains(u) || u == t),
        insert_sorted_v(acc, t).contains(t),
        insert_sorted_v(acc, t).len() >= acc.len(),
        insert_sorted_v(acc, t).len() >= 1,
    decreases acc.len(),
{
    let out = insert_sorted_v(acc, t);
    if acc.len() == 0 {
        assert(out == seq![t]);
        assert(out[0] == t);
        assert(out.contains(t));
        assert forall|u: TyV| out.contains(u) implies (acc.contains(u) || u == t) by {
            let i = choose|i: int| 0 <= i < out.len() && out[i] == u;
            assert(out[0] == t);
        }
    } else if cmp_ty(t, acc[0]) < 0 {
        assert(out == seq![t] + acc);
        assert forall|i: int, j: int| 0 <= i < j < out.len() implies cmp_ty(out[i], out[j])
            < 0 by {
            if i == 0 {
                if j == 1 {
                    assert(out[j] == acc[0]);
                } else {
                    assert(cmp_ty(acc[0], acc[j - 1]) < 0);
                    lemma_cmp_ty_trans(t, acc[0], acc[j - 1]);
                }
            } else {
                assert(cmp_ty(acc[i - 1], acc[j - 1]) < 0);
            }
        }
        assert forall|u: TyV| out.contains(u) implies (acc.contains(u) || u == t) by {
            let i = choose|i: int| 0 <= i < out.len() && out[i] == u;
            if i > 0 {
                assert(acc[i - 1] == u);
            }
        }
        assert forall|u: TyV| (acc.contains(u) || u == t) implies out.contains(u) by {
            if u == t {
                assert(out[0] == u);
            } else {
                let i = choose|i: int| 0 <= i < acc.len() && acc[i] == u;
                assert(out[i + 1] == u);
            }
        }
    } else if cmp_ty(t, acc[0]) == 0 {
        lemma_cmp_ty_properties(t, acc[0]);
        assert(acc[0] == t);
        assert(acc.contains(t));
    } else {
        let rest = insert_sorted_v(acc.drop_first(), t);
        assert(sorted_unique_v(acc.drop_first())) by {
            assert(forall|i: int, j: int|
                0 <= i < j < acc.drop_first().len() ==> cmp_ty(
                    #[trigger] acc.drop_first()[i],
                    #[trigger] acc.drop_first()[j],
                ) < 0);
        }
        lemma_insert_sorted(acc.drop_first(), t);
        assert(out == seq![acc[0]] + rest);
        lemma_cmp_ty_properties(t, acc[0]);
        assert(cmp_ty(acc[0], t) < 0);
        assert forall|i: int, j: int| 0 <= i < j < out.len() implies cmp_ty(out[i], out[j])
            < 0 by {
            if i == 0 {
                assert(rest.contains(out[j])) by {
                    assert(rest[j - 1] == out[j]);
                }
                if out[j] == t {
                } else {
                    assert(acc.drop_first().contains(out[j]));
                    let m = choose|m: int|
                        0 <= m < acc.drop_first().len() && acc.drop_first()[m] == out[j];
                    assert(acc[m + 1] == out[j]);
                    assert(cmp_ty(acc[0], acc[m + 1]) < 0);
                }
            } else {
                assert(cmp_ty(rest[i - 1], rest[j - 1]) < 0);
            }
        }
        assert forall|u: TyV| out.contains(u) implies (acc.contains(u) || u == t) by {
            let i = choose|i: int| 0 <= i < out.len() && out[i] == u;
            if i == 0 {
                assert(acc[0] == u);
            } else {
                assert(rest[i - 1] == u);
                assert(rest.contains(u));
                if u != t {
                    assert(acc.drop_first().contains(u));
                    let m = choose|m: int|
                        0 <= m < acc.drop_first().len() && acc.drop_first()[m] == u;
                    assert(acc[m + 1] == u);
                }
            }
        }
        assert forall|u: TyV| (acc.contains(u) || u == t) implies out.contains(u) by {
            if u == t || !acc.contains(u) {
                assert(u == t);
                assert(rest.contains(u));
                let m = choose|m: int| 0 <= m < rest.len() && rest[m] == u;
                assert(out[m + 1] == u);
            } else {
                let i = choose|i: int| 0 <= i < acc.len() && acc[i] == u;
                if i == 0 {
                    assert(out[0] == u);
                } else {
                    assert(acc.drop_first()[i - 1] == u);
                    assert(acc.drop_first().contains(u));
                    assert(rest.contains(u));
                    let m = choose|m: int| 0 <= m < rest.len() && rest[m] == u;
                    assert(out[m + 1] == u);
                }
            }
        }
        assert(out.contains(t)) by {
            let m = choose|m: int| 0 <= m < rest.len() && rest[m] == t;
            assert(out[m + 1] == t);
        }
    }
}

/// Inserting every element of `xs` keeps the accumulator strictly ascending
/// and adds exactly the contents of `xs`.
pub proof fn lemma_insert_all(acc: Seq<TyV>, xs: Seq<TyV>)
    requires
        sorted_unique_v(acc),
    ensures
        sorted_unique_v(insert_all_v(acc, xs)),
        forall|u: TyV|
            insert_all_v(acc, xs).contains(u) <==> (acc.contains(u) || xs.contains(u)),
    decreases xs.len(),
{
    if xs.len() == 0 {
        assert(forall|u: TyV| !xs.contains(u));
    } else {
        lemma_insert_sorted(acc, xs[0]);
        lemma_insert_all(insert_sorted_v(acc, xs[0]), xs.drop_first());
        assert forall|u: TyV| xs.contains(u) implies (u == xs[0] || xs.drop_first().contains(
            u,
        )) by {
            let i = choose|i: int| 0 <= i < xs.len() && xs[i] == u;
            if i > 0 {
                assert(xs.drop_first()[i - 1] == u);
            }
        }
        assert(forall|u: TyV| xs.drop_first().contains(u) ==> xs.contains(u)) by {
            assert(forall|i: int|
                0 <= i < xs.drop_first().len() ==> #[trigger] xs.drop_first()[i] == xs[i + 1]);
        }
        assert(xs.contains(xs[0]));
    }
}

/// Two strictly ascending sequences with the same contents are equal.
pub proof fn lemma_sorted_unique_equal(x: Seq<TyV>, y: Seq<TyV>)
    requires
        sorted_unique_v(x),
        sorted_unique_v(y),
        forall|u: TyV| x.contains(u) <==> y.contains(u),
    ensures
        x == y,
    decreases x.len(),
{
    if x.len() == 0 {
        if y.len() > 0 {
            assert(y.contains(y[0]));
            assert(x.contains(y[0]));
        }
        assert(x =~= y);
    } else {
        assert(x.contains(x[0]));
        assert(y.contains(x[0]));
        let j = choose|j: int| 0 <= j < y.len() && y[j] == x[0];
        assert(y.contains(y[0]));
        assert(x.contains(y[0]));
        let i = choose|i: int| 0 <= i < x.len() && x[i] == y[0];
        // The heads are mutual minima, so they are equal.
        lemma_cmp_ty_properties(x[0], y[0]);
        if x[0] != y[0] {
            if j > 0 {
                assert(cmp_ty(y[0], y[j]) < 0);
            }
            if i > 0 {
                assert(cmp_ty(x[0], x[i]) < 0);
            }
            assert(false);
        }
        assert(sorted_unique_v(x.drop_first())) by {
            assert(forall|i2: int, j2: int|
                0 <= i2 < j2 < x.drop_first().len() ==> cmp_ty(
                    #[trigger] x.drop_first()[i2],
                    #[trigger] x.drop_first()[j2],
                ) < 0);
        }
        assert(sorted_unique_v(y.drop_first())) by {
            assert(forall|i2: int, j2: int|
                0 <= i2 < j2 < y.drop_first().len() ==> cmp_ty(
                    #[trigger] y.drop_first()[i2],
                    #[trigger] y.drop_first()[j2],
                ) < 0);
        }
        assert forall|u: TyV| x.drop_first().contains(u) implies y.drop_first().contains(u) by {
            lemma_tail_contains(x, u);
            lemma_cmp_ty_properties(x[0], u);
            assert(y.contains(u));
            lemma_head_not_in_tail(y, u);
        }
        assert forall|u: TyV| y.drop_first().contains(u) implies x.drop_first().contains(u) by {
            lemma_tail_contains(y, u);
            lemma_cmp_ty_properties(y[0], u);
            assert(x.contains(u));
            lemma_head_not_in_tail(x, u);
        }
        lemma_sorted_unique_equal(x.drop_first(), y.drop_first());
        assert forall|k: int| 0 <= k < x.len() implies x[k] == y[k] by {
            if k > 0 {
                assert(x.drop_first()[k - 1] == y.drop_first()[k - 1]);
            }
        }
        assert(x =~= y);
    }
}

/// An element of the tail of a strictly ascending sequence is strictly
/// above the head.
proof fn lemma_tail_contains(x: Seq<TyV>, u: TyV)
    requires
        sorted_unique_v(x),
        x.len() > 0,
        x.drop_first().contains(u),
    ensures
        x.contains(u),
        cmp_ty(x[0], u) < 0,
{
    let m = choose|m: int| 0 <= m < x.drop_first().len() && x.drop_first()[m] == u;
    assert(x[m + 1] == u);
    assert(cmp_ty(x[0], x[m + 1]) < 0);
}

/// An element of a strictly ascending sequence that is strictly above the
/// head lies in the tail.
proof fn lemma_head_not_in_tail(x: Seq<TyV>, u: TyV)
    requires
        sorted_unique_v(x),
        x.len() > 0,
        x.contains(u),
        cmp_ty(x[0], u) < 0,
    ensures
        x.drop_first().contains(u),
{
    let i = choose|i: int| 0 <= i < x.len() && x[i] == u;
    lemma_cmp_ty_properties(x[0], u);
    assert(i != 0);
    assert(x.drop_first()[i - 1] == u);
}


/// A member of a well-formed union: not itself a union, never `Never`
/// (it would have been dropped) and never `Any` (it would have absorbed).
pub open spec fn union_member_ok(t: TyV) -> bool {
    !(t is Union) && t != TyV::Never && t != TyV::Any
}

/// Every element is an acceptable union member.
pub open spec fn seq_union_members_ok(ms: Seq<TyV>) -> bool {
    forall|i: int| 0 <= i < ms.len() ==> union_member_ok(#[trigger] ms[i])
}

/// At most one list alternative.
pub open spec fn at_most_one_list_v(ms: Seq<TyV>) -> bool {
    forall|i: int, j: int|
        0 <= i < j < ms.len() ==> !((#[trigger] ms[i] is List) && (#[trigger] ms[j] is List))
}

/// At most one dictionary alternative.
pub open spec fn at_most_one_dict_v(ms: Seq<TyV>) -> bool {
    forall|i: int, j: int|
        0 <= i < j < ms.len() ==> !((#[trigger] ms[i] is Dict) && (#[trigger] ms[j] is Dict))
}

/// Validity of a type: a name never shadows a structural variant, and the
/// alternatives of a union are valid members, strictly ascending, with all
/// lists merged into one and all dictionaries merged into one.
pub open spec fn wf_v(t: TyV) -> bool
    decreases t,
{
    match t {
        TyV::Never => true,
        TyV::Any => true,
        TyV::Name(s) => s != "list"@ && s != "dict"@ && s != "function"@ && s != "struct"@ && s
            != "never"@,
        TyV::Union(ms) => ms.len() >= 2 && sorted_unique_v(ms) && seq_wf_v(ms)
            && seq_union_members_ok(ms) && at_most_one_list_v(ms) && at_most_one_dict_v(ms),
        TyV::Iter(x) => wf_v(*x),
        TyV::List(x) => wf_v(*x),
        TyV::Tuple(ts) => seq_wf_v(ts),
        TyV::Dict(k, v) => wf_v(*k) && wf_v(*v),
        TyV::Custom(c) => custom_wf_v(c),
    }
}

/// Validity of every element of a sequence of types.
pub open spec fn seq_wf_v(ts: Seq<TyV>) -> bool
    decreases ts,
{
    if ts.len() == 0 {
        true
    } else {
        seq_wf_v(ts.drop_last()) && wf_v(ts.last())
    }
}

/// Validity of a custom type.
pub open spec fn custom_wf_v(c: TyCustomV) -> bool
    decreases c,
{
    match c {
        TyCustomV::Function(f) => seq_param_wf_v(f.params) && wf_v(*f.result),
        TyCustomV::Opaque(_) => true,
    }
}

/// Validity of every parameter of a sequence.
pub open spec fn seq_param_wf_v(ps: Seq<ParamV>) -> bool
    decreases ps,
{
    if ps.len() == 0 {
        true
    } else {
        seq_param_wf_v(ps.drop_last()) && wf_v(ps.last().ty)
    }
}

/// `seq_wf_v` holds exactly when every element is valid.
pub broadcast proof fn lemma_seq_wf_v(ts: Seq<TyV>)
    ensures
        #[trigger] seq_wf_v(ts) <==> (forall|i: int| 0 <= i < ts.len() ==> wf_v(#[trigger] ts[i])),
    decreases ts.len(),
{
    if ts.len() > 0 {
        lemma_seq_wf_v(ts.drop_last());
        if seq_wf_v(ts) {
            assert forall|i: int| 0 <= i < ts.len() implies wf_v(#[trigger] ts[i]) by {
                if i < ts.len() - 1 {
                    assert(ts.drop_last()[i] == ts[i]);
                    assert(wf_v(ts.drop_last()[i]));
                }
            }
        } else {
            if !seq_wf_v(ts.drop_last()) {
                let i = choose|i: int| 0 <= i < ts.drop_last().len() && !wf_v(
                    #[trigger] ts.drop_last()[i],
                );
                assert(ts[i] == ts.drop_last()[i]);
            }
        }
    }
}

/// What the flattening holds: exactly what some input alternative holds.
pub proof fn lemma_flatten_contains(xs: Seq<TyV>)
    ensures
        forall|u: TyV|
            #[trigger] flatten_v(xs).contains(u) <==> exists|x: TyV|
                #[trigger] xs.contains(x) && iter_union_v(x).contains(u),
    decreases xs.len(),
{
    if xs.len() == 0 {
        assert forall|u: TyV| !flatten_v(xs).contains(u) by {}
        assert(forall|x: TyV| !xs.contains(x));
    } else {
        lemma_flatten_contains(xs.drop_last());
        let rest = xs.drop_last();
        assert forall|u: TyV| #[trigger]
            flatten_v(xs).contains(u) implies exists|x: TyV|
            #[trigger] xs.contains(x) && iter_union_v(x).contains(u) by {
            let i = choose|i: int| 0 <= i < flatten_v(xs).len() && flatten_v(xs)[i] == u;
            if i < flatten_v(rest).len() {
                assert(flatten_v(rest)[i] == u);
                assert(flatten_v(rest).contains(u));
                let x = choose|x: TyV| #[trigger]
                    rest.contains(x) && iter_union_v(x).contains(u);
                let m = choose|m: int| 0 <= m < rest.len() && rest[m] == x;
                assert(xs[m] == x);
                assert(xs.contains(x));
            } else {
                assert(iter_union_v(xs.last())[i - flatten_v(rest).len()] == u);
                assert(iter_union_v(xs.last()).contains(u));
                assert(xs.contains(xs.last()));
            }
        }
        assert forall|u: TyV, x: TyV|
            #![trigger xs.contains(x), iter_union_v(x).contains(u)]
            xs.contains(x) && iter_union_v(x).contains(u) implies flatten_v(xs).contains(u) by {
            let m = choose|m: int| 0 <= m < xs.len() && xs[m] == x;
            if m < xs.len() - 1 {
                assert(rest[m] == x);
                assert(rest.contains(x));
                assert(flatten_v(rest).contains(u));
                let i = choose|i: int| 0 <= i < flatten_v(rest).len() && flatten_v(rest)[i] == u;
                assert(flatten_v(xs)[i] == u);
            } else {
                let j = choose|j: int|
                    0 <= j < iter_union_v(x).len() && iter_union_v(x)[j] == u;
                assert(flatten_v(xs)[flatten_v(rest).len() + j] == u);
            }
        }
    }
}

/// What each extracted part of a sequence holds.
pub proof fn lemma_parts_contains(f: Seq<TyV>)
    ensures
        forall|u: TyV| #[trigger]
            list_inners_v(f).contains(u) <==> f.contains(TyV::List(Box::new(u))),
        forall|u: TyV| #[trigger]
            dict_keys_v(f).contains(u) <==> exists|w: TyV|
                f.contains(TyV::Dict(Box::new(u), Box::new(w))),
        forall|u: TyV| #[trigger]
            dict_vals_v(f).contains(u) <==> exists|w: TyV|
                f.contains(TyV::Dict(Box::new(w), Box::new(u))),
        forall|u: TyV| #[trigger]
            others_v(f).contains(u) <==> (f.contains(u) && !(u is List) && !(u is Dict)),
    decreases f.len(),
{
    if f.len() == 0 {
        assert(forall|u: TyV| !f.contains(u));
        assert(forall|u: TyV| !list_inners_v(f).contains(u));
        assert(forall|u: TyV| !dict_keys_v(f).contains(u));
        assert(forall|u: TyV| !dict_vals_v(f).contains(u));
        assert(forall|u: TyV| !others_v(f).contains(u));
    } else {
        lemma_parts_contains(f.drop_last());
        let rest = f.drop_last();
        let z = f.last();
        assert forall|u: TyV| #[trigger] f.contains(u) <==> (rest.contains(u) || u == z) by {
            if f.contains(u) {
                let i = choose|i: int| 0 <= i < f.len() && f[i] == u;
                if i < f.len() - 1 {
                    assert(rest[i] == u);
                    assert(rest.contains(u));
                }
            }
            if rest.contains(u) {
                let i = choose|i: int| 0 <= i < rest.len() && rest[i] == u;
                assert(f[i] == u);
            }
            assert(f[f.len() - 1] == z);
        }
        assert forall|u: TyV| #[trigger]
            list_inners_v(f).contains(u) <==> f.contains(TyV::List(Box::new(u))) by {
            match z {
                TyV::List(x) => {
                    assert(list_inners_v(f) == list_inners_v(rest).push(*x));
                    lemma_push_contains(list_inners_v(rest), *x, u);
                    assert(TyV::List(Box::new(u)) == z <==> u == *x);
                },
                _ => {
                    assert(list_inners_v(f) == list_inners_v(rest));
                    assert(TyV::List(Box::new(u)) != z);
                },
            }
        }
        assert forall|u: TyV| #[trigger]
            dict_keys_v(f).contains(u) <==> exists|w: TyV|
            f.contains(TyV::Dict(Box::new(u), Box::new(w))) by {
            match z {
                TyV::Dict(k, v) => {
                    assert(dict_keys_v(f) == dict_keys_v(rest).push(*k));
                    lemma_push_contains(dict_keys_v(rest), *k, u);
                    if dict_keys_v(f).contains(u) {
                        if u == *k {
                            assert(f.contains(TyV::Dict(Box::new(u), Box::new(*v))));
                        } else {
                            let w = choose|w: TyV|
                                rest.contains(TyV::Dict(Box::new(u), Box::new(w)));
                            assert(f.contains(TyV::Dict(Box::new(u), Box::new(w))));
                        }
                    }
                    if exists|w: TyV| f.contains(TyV::Dict(Box::new(u), Box::new(w))) {
                        let w = choose|w: TyV| f.contains(TyV::Dict(Box::new(u), Box::new(w)));
                        if rest.contains(TyV::Dict(Box::new(u), Box::new(w))) {
                            assert(dict_keys_v(rest).contains(u));
                        } else {
                            assert(TyV::Dict(Box::new(u), Box::new(w)) == z);
                            assert(u == *k);
                        }
                    }
                },
                _ => {
                    assert(dict_keys_v(f) == dict_keys_v(rest));
                    assert forall|w: TyV| true implies (f.contains(
                        TyV::Dict(Box::new(u), Box::new(w)),
                    ) <==> rest.contains(TyV::Dict(Box::new(u), Box::new(w)))) by {
                        assert(TyV::Dict(Box::new(u), Box::new(w)) != z);
                    }
                },
            }
        }
        assert forall|u: TyV| #[trigger]
            dict_vals_v(f).contains(u) <==> exists|w: TyV|
            f.contains(TyV::Dict(Box::new(w), Box::new(u))) by {
            match z {
                TyV::Dict(k, v) => {
                    assert(dict_vals_v(f) == dict_vals_v(rest).push(*v));
                    lemma_push_contains(dict_vals_v(rest), *v, u);
                    if dict_vals_v(f).contains(u) {
                        if u == *v {
                            assert(f.contains(TyV::Dict(Box::new(*k), Box::new(u))));
                        } else {
                            let w = choose|w: TyV|
                                rest.contains(TyV::Dict(Box::new(w), Box::new(u)));
                            assert(f.contains(TyV::Dict(Box::new(w), Box::new(u))));
                        }
                    }
                    if exists|w: TyV| f.contains(TyV::Dict(Box::new(w), Box::new(u))) {
                        let w = choose|w: TyV| f.contains(TyV::Dict(Box::new(w), Box::new(u)));
                        if rest.contains(TyV::Dict(Box::new(w), Box::new(u))) {
                            assert(dict_vals_v(rest).contains(u));
                        } else {
                            assert(TyV::Dict(Box::new(w), Box::new(u)) == z);
                            assert(u == *v);
                        }
                    }
                },
                _ => {
                    assert(dict_vals_v(f) == dict_vals_v(rest));
                    assert forall|w: TyV| true implies (f.contains(
                        TyV::Dict(Box::new(w), Box::new(u)),
                    ) <==> rest.contains(TyV::Dict(Box::new(w), Box::new(u)))) by {
                        assert(TyV::Dict(Box::new(w), Box::new(u)) != z);
                    }
                },
            }
        }
        assert forall|u: TyV| #[trigger]
            others_v(f).contains(u) <==> (f.contains(u) && !(u is List) && !(u is Dict)) by {
            match z {
                TyV::List(_) => {
                    assert(others_v(f) == others_v(rest));
                },
                TyV::Dict(_, _) => {
                    assert(others_v(f) == others_v(rest));
                },
                _ => {
                    assert(others_v(f) == others_v(rest).push(z));
                    lemma_push_contains(others_v(rest), z, u);
                },
            }
        }
    }
}

/// What a push holds.
proof fn lemma_push_contains(s: Seq<TyV>, z: TyV, u: TyV)
    ensures
        s.push(z).contains(u) <==> (s.contains(u) || u == z),
{
    if s.push(z).contains(u) {
        let i = choose|i: int| 0 <= i < s.push(z).len() && s.push(z)[i] == u;
        if i < s.len() {
            assert(s[i] == u);
        }
    }
    if s.contains(u) {
        let i = choose|i: int| 0 <= i < s.len() && s[i] == u;
        assert(s.push(z)[i] == u);
    }
    assert(s.push(z)[s.len() as int] == z);
}


/// A non-empty sequence holds its last element.
proof fn lemma_contains_last(s: Seq<TyV>)
    requires
        s.len() > 0,
    ensures
        s.contains(s.last()),
{
    assert(s[s.len() - 1] == s.last());
}

/// The law of union formation: the union of a collection of types depends
/// only on which types are in it, never on their order or their
/// multiplicity.
pub proof fn lemma_unions_permutation(xs: Seq<TyV>, ys: Seq<TyV>)
    requires
        forall|u: TyV| xs.contains(u) <==> ys.contains(u),
    ensures
        unions_v(xs) == unions_v(ys),
    decreases seq_size_v(xs) + seq_size_v(ys),
{
    let f1 = flatten_v(xs);
    let f2 = flatten_v(ys);
    lemma_flatten_contains(xs);
    lemma_flatten_contains(ys);
    assert forall|u: TyV| #[trigger] f1.contains(u) <==> f2.contains(u) by {
        if f1.contains(u) {
            let x = choose|x: TyV| #[trigger] xs.contains(x) && iter_union_v(x).contains(u);
            assert(ys.contains(x));
        }
        if f2.contains(u) {
            let x = choose|x: TyV| #[trigger] ys.contains(x) && iter_union_v(x).contains(u);
            assert(xs.contains(x));
        }
    }
    if f1.contains(TyV::Any) {
        assert(f2.contains(TyV::Any));
    } else {
        assert(!f2.contains(TyV::Any));
        lemma_parts_contains(f1);
        lemma_parts_contains(f2);
        lemma_flatten_size(xs);
        lemma_flatten_size(ys);
        lemma_parts_size(f1);
        lemma_parts_size(f2);
        let li1 = list_inners_v(f1);
        let li2 = list_inners_v(f2);
        let dk1 = dict_keys_v(f1);
        let dk2 = dict_keys_v(f2);
        let dv1 = dict_vals_v(f1);
        let dv2 = dict_vals_v(f2);
        let b1 = others_v(f1);
        let b2 = others_v(f2);
        assert(forall|u: TyV| #[trigger] li1.contains(u) <==> li2.contains(u));
        assert forall|u: TyV| #[trigger] dk1.contains(u) <==> dk2.contains(u) by {
            if dk1.contains(u) {
                let w = choose|w: TyV| f1.contains(TyV::Dict(Box::new(u), Box::new(w)));
                assert(f2.contains(TyV::Dict(Box::new(u), Box::new(w))));
            }
            if dk2.contains(u) {
                let w = choose|w: TyV| f2.contains(TyV::Dict(Box::new(u), Box::new(w)));
                assert(f1.contains(TyV::Dict(Box::new(u), Box::new(w))));
            }
        }
        assert forall|u: TyV| #[trigger] dv1.contains(u) <==> dv2.contains(u) by {
            if dv1.contains(u) {
                let w = choose|w: TyV| f1.contains(TyV::Dict(Box::new(w), Box::new(u)));
                assert(f2.contains(TyV::Dict(Box::new(w), Box::new(u))));
            }
            if dv2.contains(u) {
                let w = choose|w: TyV| f2.contains(TyV::Dict(Box::new(w), Box::new(u)));
                assert(f1.contains(TyV::Dict(Box::new(w), Box::new(u))));
            }
        }
        assert(forall|u: TyV| #[trigger] b1.contains(u) <==> b2.contains(u));
        if li1.len() > 0 {
            lemma_contains_last(li1);
            assert(li1.contains(li1.last()));
            assert(li2.contains(li1.last()));
        }
        if li2.len() > 0 {
            lemma_contains_last(li2);
            assert(li1.contains(li2.last()));
        }
        if dk1.len() > 0 {
            lemma_contains_last(dk1);
            assert(dk2.contains(dk1.last()));
        }
        if dk2.len() > 0 {
            lemma_contains_last(dk2);
            assert(dk1.contains(dk2.last()));
        }
        assert(li1.len() > 0 <==> li2.len() > 0);
        assert(dk1.len() > 0 <==> dk2.len() > 0);
        if li1.len() > 0 {
            lemma_unions_permutation(li1, li2);
        }
        if dk1.len() > 0 {
            lemma_unions_permutation(dk1, dk2);
            lemma_unions_permutation(dv1, dv2);
        }
        let wl1 = if li1.len() > 0 {
            b1.push(TyV::List(Box::new(unions_v(li1))))
        } else {
            b1
        };
        let wl2 = if li2.len() > 0 {
            b2.push(TyV::List(Box::new(unions_v(li2))))
        } else {
            b2
        };
        assert forall|u: TyV| #[trigger] wl1.contains(u) <==> wl2.contains(u) by {
            if li1.len() > 0 {
                lemma_push_contains(b1, TyV::List(Box::new(unions_v(li1))), u);
                lemma_push_contains(b2, TyV::List(Box::new(unions_v(li2))), u);
            }
        }
        let wd1 = if dk1.len() > 0 {
            wl1.push(TyV::Dict(Box::new(unions_v(dk1)), Box::new(unions_v(dv1))))
        } else {
            wl1
        };
        let wd2 = if dk2.len() > 0 {
            wl2.push(TyV::Dict(Box::new(unions_v(dk2)), Box::new(unions_v(dv2))))
        } else {
            wl2
        };
        assert forall|u: TyV| #[trigger] wd1.contains(u) <==> wd2.contains(u) by {
            if dk1.len() > 0 {
                lemma_push_contains(wl1, TyV::Dict(Box::new(unions_v(dk1)), Box::new(unions_v(dv1))), u);
                lemma_push_contains(wl2, TyV::Dict(Box::new(unions_v(dk2)), Box::new(unions_v(dv2))), u);
            }
        }
        let emp = Seq::<TyV>::empty();
        assert(sorted_unique_v(emp));
        lemma_insert_all(emp, wd1);
        lemma_insert_all(emp, wd2);
        let s1 = insert_all_v(emp, wd1);
        let s2 = insert_all_v(emp, wd2);
        assert forall|u: TyV| #[trigger] s1.contains(u) <==> s2.contains(u) by {
            assert(!emp.contains(u));
        }
        lemma_sorted_unique_equal(s1, s2);
    }
}

/// The union of no types at all is `Never`.
pub proof fn lemma_unions_empty()
    ensures
        unions_v(Seq::<TyV>::empty()) == TyV::Never,
{
    let emp = Seq::<TyV>::empty();
    assert(flatten_v(emp) =~= emp);
    assert(!flatten_v(emp).contains(TyV::Any));
    assert(list_inners_v(emp) =~= emp);
    assert(dict_keys_v(emp) =~= emp);
    assert(others_v(emp) =~= emp);
    assert(insert_all_v(emp, emp) == emp);
}

/// The union of a single valid type is that type.
#[verifier::rlimit(60)]
pub proof fn lemma_unions_self(t: TyV)
    requires
        wf_v(t),
    ensures
        unions_v(seq![t]) == t,
    decreases size_v(t),
{
    let xs = seq![t];
    let emp = Seq::<TyV>::empty();
    assert(sorted_unique_v(emp));
    assert(xs.drop_last() =~= emp);
    assert(xs.last() == t);
    assert(flatten_v(emp) =~= emp);
    assert(flatten_v(xs) =~= iter_union_v(t)) by {
        assert(flatten_v(xs) == flatten_v(emp) + iter_union_v(t));
        assert(emp + iter_union_v(t) =~= iter_union_v(t));
    }
    let f = flatten_v(xs);
    lemma_parts_contains(f);
    match t {
        TyV::Never => {
            assert(f =~= emp);
            assert(!f.contains(TyV::Any));
            assert(list_inners_v(f) =~= emp);
            assert(dict_keys_v(f) =~= emp);
            assert(others_v(f) =~= emp);
            assert(insert_all_v(emp, emp) == emp);
        },
        TyV::Any => {
            assert(f =~= seq![TyV::Any]);
            assert(f[0] == TyV::Any);
            assert(f.contains(TyV::Any));
        },
        TyV::Union(ms) => {
            assert(f == ms);
            assert(!f.contains(TyV::Any)) by {
                if f.contains(TyV::Any) {
                    let i = choose|i: int| 0 <= i < ms.len() && ms[i] == TyV::Any;
                    assert(union_member_ok(ms[i]));
                }
            }
            let li = list_inners_v(f);
            let dk = dict_keys_v(f);
            let dv = dict_vals_v(f);
            let b = others_v(f);
            lemma_seq_wf_v(ms);
            // All list alternatives are one, so the merged list is that one.
            if li.len() > 0 {
                lemma_contains_last(li);
                let a = li.last();
                assert(ms.contains(TyV::List(Box::new(a))));
                assert forall|u: TyV| #[trigger] li.contains(u) <==> seq![a].contains(u) by {
                    if li.contains(u) {
                        assert(ms.contains(TyV::List(Box::new(u))));
                        if u != a {
                            let i = choose|i: int|
                                0 <= i < ms.len() && ms[i] == TyV::List(Box::new(u));
                            let j = choose|j: int|
                                0 <= j < ms.len() && ms[j] == TyV::List(Box::new(a));
                            assert(ms[i] is List && ms[j] is List);
                            assert(i != j);
                            assert(false);
                        }
                        assert(seq![a][0] == u);
                    }
                    if seq![a].contains(u) {
                        assert(u == a);
                    }
                }
                lemma_unions_permutation(li, seq![a]);
                let i = choose|i: int| 0 <= i < ms.len() && ms[i] == TyV::List(Box::new(a));
                assert(wf_v(ms[i]));
                assert(wf_v(a));
                assert(size_v(a) < size_v(t)) by {
                    lemma_parts_size(f);
                    lemma_seq_size_last(li);
                }
                lemma_unions_self(a);
                assert(unions_v(li) == a);
            }
            if dk.len() > 0 {
                lemma_contains_last(dk);
                let k = dk.last();
                let w0 = choose|w: TyV| ms.contains(TyV::Dict(Box::new(k), Box::new(w)));
                let d = TyV::Dict(Box::new(k), Box::new(w0));
                assert(ms.contains(d));
                assert forall|u: TyV| #[trigger] dk.contains(u) <==> seq![k].contains(u) by {
                    if dk.contains(u) {
                        let w = choose|w: TyV| ms.contains(TyV::Dict(Box::new(u), Box::new(w)));
                        if TyV::Dict(Box::new(u), Box::new(w)) != d {
                            let i = choose|i: int|
                                0 <= i < ms.len() && ms[i] == TyV::Dict(Box::new(u), Box::new(w));
                            let j = choose|j: int| 0 <= j < ms.len() && ms[j] == d;
                            assert(ms[i] is Dict && ms[j] is Dict);
                            assert(i != j);
                            assert(false);
                        }
                        assert(u == k);
                        assert(seq![k][0] == u);
                    }
                    if seq![k].contains(u) {
                        assert(u == k);
                        assert(ms.contains(TyV::Dict(Box::new(k), Box::new(w0))));
                    }
                }
                assert forall|u: TyV| #[trigger] dv.contains(u) <==> seq![w0].contains(u) by {
                    if dv.contains(u) {
                        let w = choose|w: TyV| ms.contains(TyV::Dict(Box::new(w), Box::new(u)));
                        if TyV::Dict(Box::new(w), Box::new(u)) != d {
                            let i = choose|i: int|
                                0 <= i < ms.len() && ms[i] == TyV::Dict(Box::new(w), Box::new(u));
                            let j = choose|j: int| 0 <= j < ms.len() && ms[j] == d;
                            assert(ms[i] is Dict && ms[j] is Dict);
                            assert(i != j);
                            assert(false);
                        }
                        assert(u == w0);
                        assert(seq![w0][0] == u);
                    }
                    if seq![w0].contains(u) {
                        assert(u == w0);
                        assert(ms.contains(d));
                    }
                }
                lemma_unions_permutation(dk, seq![k]);
                lemma_unions_permutation(dv, seq![w0]);
                let j = choose|j: int| 0 <= j < ms.len() && ms[j] == d;
                assert(wf_v(ms[j]));
                assert(wf_v(k) && wf_v(w0));
                assert(size_v(k) < size_v(t) && size_v(w0) < size_v(t)) by {
                    lemma_parts_size(f);
                    lemma_seq_size_last(dk);
                    assert(dv.contains(w0));
                    lemma_seq_size_elem(dv, w0);
                }
                lemma_unions_self(k);
                lemma_unions_self(w0);
                assert(unions_v(dk) == k);
                assert(unions_v(dv) == w0);
            }
            let wl = if li.len() > 0 {
                b.push(TyV::List(Box::new(unions_v(li))))
            } else {
                b
            };
            let wd = if dk.len() > 0 {
                wl.push(TyV::Dict(Box::new(unions_v(dk)), Box::new(unions_v(dv))))
            } else {
                wl
            };
            assert forall|u: TyV| #[trigger] wd.contains(u) <==> ms.contains(u) by {
                if li.len() > 0 {
                    lemma_push_contains(b, TyV::List(Box::new(unions_v(li))), u);
                }
                if dk.len() > 0 {
                    lemma_push_contains(wl, TyV::Dict(Box::new(unions_v(dk)), Box::new(unions_v(dv))), u);
                }
                if ms.contains(u) && (u is List) {
                    assert(li.len() > 0) by {
                        let a2 = choose|a2: TyV| u == TyV::List(Box::new(a2));
                        assert(li.contains(a2));
                    }
                }
                if ms.contains(u) && (u is Dict) {
                    assert(dk.len() > 0) by {
                        let (k2, v2) = choose|k2: TyV, v2: TyV|
                            u == TyV::Dict(Box::new(k2), Box::new(v2));
                        assert(dk.contains(k2));
                    }
                }
            }
            lemma_insert_all(emp, wd);
            let sorted = insert_all_v(emp, wd);
            assert forall|u: TyV| #[trigger] sorted.contains(u) <==> ms.contains(u) by {
                assert(!emp.contains(u));
            }
            lemma_sorted_unique_equal(sorted, ms);
        },
        _ => {
            assert(f =~= seq![t]);
            assert(f.drop_last() =~= emp);
            assert(f.last() == t);
            assert(list_inners_v(emp) == Seq::<TyV>::empty());
            assert(dict_keys_v(emp) == Seq::<TyV>::empty());
            assert(dict_vals_v(emp) == Seq::<TyV>::empty());
            assert(others_v(emp) == Seq::<TyV>::empty());
            assert(!f.contains(TyV::Any)) by {
                if f.contains(TyV::Any) {
                    let i = choose|i: int| 0 <= i < f.len() && f[i] == TyV::Any;
                    assert(f[0] == t);
                }
            }
            match t {
                TyV::List(x) => {
                    let li = list_inners_v(f);
                    assert(li =~= seq![*x]);
                    assert(dict_keys_v(f) =~= emp);
                    assert(others_v(f) =~= emp);
                    lemma_unions_self(*x);
                    assert(unions_v(seq![*x]) == *x);
                    assert(li == seq![*x]);
                    let wl = emp.push(TyV::List(Box::new(unions_v(li))));
                    assert(wl =~= seq![t]);
                    lemma_insert_single(t);
                },
                TyV::Dict(k, v) => {
                    let dk = dict_keys_v(f);
                    let dv = dict_vals_v(f);
                    assert(dk =~= seq![*k]);
                    assert(dv =~= seq![*v]);
                    assert(list_inners_v(f) =~= emp);
                    assert(others_v(f) =~= emp);
                    lemma_unions_self(*k);
                    lemma_unions_self(*v);
                    let wd = emp.push(TyV::Dict(Box::new(unions_v(dk)), Box::new(unions_v(dv))));
                    assert(wd =~= seq![t]);
                    lemma_insert_single(t);
                },
                _ => {
                    assert(list_inners_v(f) =~= emp);
                    assert(dict_keys_v(f) =~= emp);
                    assert(others_v(f) =~= seq![t]);
                    lemma_insert_single(t);
                },
            }
        },
    }
}

/// Inserting one element into nothing gives the singleton.
proof fn lemma_insert_single(t: TyV)
    ensures
        insert_all_v(Seq::<TyV>::empty(), seq![t]) == seq![t],
{
    let emp = Seq::<TyV>::empty();
    let one = seq![t];
    assert(one[0] == t);
    assert(one.drop_first() =~= emp);
    assert(insert_sorted_v(emp, t) == one);
    assert(insert_all_v(one, emp) == one);
    assert(insert_all_v(emp, one) == insert_all_v(insert_sorted_v(emp, t), one.drop_first()));
}

/// The size of a sequence bounds the size of its last element.
proof fn lemma_seq_size_last(s: Seq<TyV>)
    requires
        s.len() > 0,
    ensures
        size_v(s.last()) <= seq_size_v(s),
{
}

/// The size of a sequence bounds the size of each element it holds.
proof fn lemma_seq_size_elem(s: Seq<TyV>, u: TyV)
    requires
        s.contains(u),
    ensures
        size_v(u) <= seq_size_v(s),
    decreases s.len(),
{
    if s.last() == u {
        lemma_seq_size_last(s);
    } else {
        let i = choose|i: int| 0 <= i < s.len() && s[i] == u;
        assert(s.drop_last()[i] == u);
        assert(s.drop_last().contains(u));
        lemma_seq_size_elem(s.drop_last(), u);
    }
}


/// Absorption: a union with `Any` among its members collapses to `Any`.
pub proof fn lemma_unions_any(xs: Seq<TyV>)
    requires
        xs.contains(TyV::Any),
    ensures
        unions_v(xs) == TyV::Any,
{
    lemma_flatten_contains(xs);
    let single = iter_union_v(TyV::Any);
    assert(single == seq![TyV::Any]);
    assert(single[0] == TyV::Any);
    assert(single.contains(TyV::Any));
    assert(flatten_v(xs).contains(TyV::Any));
}

/// Absorption: `Never` contributes nothing to a union.
pub proof fn lemma_unions_never(t: TyV)
    requires
        wf_v(t),
    ensures
        unions_v(seq![TyV::Never, t]) == t,
{
    let xs = seq![TyV::Never, t];
    let emp = Seq::<TyV>::empty();
    assert(xs.drop_last() =~= seq![TyV::Never]);
    assert(seq![TyV::Never].drop_last() =~= emp);
    assert(flatten_v(emp) == emp);
    assert(flatten_v(seq![TyV::Never]) =~= emp) by {
        assert(seq![TyV::Never].last() == TyV::Never);
        assert(iter_union_v(TyV::Never) =~= emp);
    }
    assert(flatten_v(xs) =~= iter_union_v(t)) by {
        assert(xs.last() == t);
    }
    assert(seq![t].drop_last() =~= emp);
    assert(seq![t].last() == t);
    assert(flatten_v(seq![t]) =~= iter_union_v(t));
    assert(flatten_v(xs) == flatten_v(seq![t]));
    lemma_unions_self(t);
    assert(unions_v(xs) == unions_v(seq![t]));
}

/// Structural merge: the union of two lists is the list of the union of
/// their element types, never a two-element union of list types.
pub proof fn lemma_unions_structural_merge(a: TyV, b: TyV)
    ensures
        unions_v(seq![TyV::List(Box::new(a)), TyV::List(Box::new(b))]) == TyV::List(
            Box::new(unions_v(seq![a, b])),
        ),
{
    let la = TyV::List(Box::new(a));
    let lb = TyV::List(Box::new(b));
    let xs = seq![la, lb];
    let emp = Seq::<TyV>::empty();
    assert(xs.drop_last() =~= seq![la]);
    assert(seq![la].drop_last() =~= emp);
    assert(seq![la].last() == la);
    assert(flatten_v(emp) == emp);
    assert(iter_union_v(la) == seq![la]);
    assert(iter_union_v(lb) == seq![lb]);
    assert(flatten_v(seq![la]) =~= seq![la]);
    assert(flatten_v(xs) =~= xs) by {
        assert(xs.last() == lb);
        assert(flatten_v(xs) == flatten_v(xs.drop_last()) + iter_union_v(lb));
    }
    let f = flatten_v(xs);
    assert(f == xs);
    assert(!f.contains(TyV::Any)) by {
        if f.contains(TyV::Any) {
            let i = choose|i: int| 0 <= i < f.len() && f[i] == TyV::Any;
            assert(f[0] == la && f[1] == lb);
        }
    }
    assert(list_inners_v(emp) == Seq::<TyV>::empty());
    assert(dict_keys_v(emp) == Seq::<TyV>::empty());
    assert(others_v(emp) == Seq::<TyV>::empty());
    assert(xs.last() == lb);
    assert(list_inners_v(seq![la]) =~= seq![a]);
    assert(list_inners_v(f) =~= seq![a, b]) by {
        assert(list_inners_v(f) == list_inners_v(seq![la]).push(b));
    }
    assert(dict_keys_v(seq![la]) =~= emp);
    assert(dict_keys_v(f) =~= emp);
    assert(others_v(seq![la]) =~= emp);
    assert(others_v(f) =~= emp);
    let u = unions_v(seq![a, b]);
    assert(list_inners_v(f) == seq![a, b]);
    let wl = others_v(f).push(TyV::List(Box::new(u)));
    assert(wl =~= seq![TyV::List(Box::new(u))]);
    lemma_insert_single(TyV::List(Box::new(u)));
    assert(insert_all_v(emp, wl) == seq![TyV::List(Box::new(u))]);
}

/// Everything the flattening of a sequence of valid types holds is itself
/// valid, not a union, and not `Never`.
proof fn lemma_flatten_wf(xs: Seq<TyV>)
    requires
        seq_wf_v(xs),
    ensures
        forall|u: TyV| #[trigger]
            flatten_v(xs).contains(u) ==> wf_v(u) && !(u is Union) && u != TyV::Never,
    decreases xs.len(),
{
    if xs.len() > 0 {
        assert(seq_wf_v(xs.drop_last()) && wf_v(xs.last()));
        lemma_flatten_wf(xs.drop_last());
        let rest = flatten_v(xs.drop_last());
        let add = iter_union_v(xs.last());
        assert forall|u: TyV| #[trigger]
            flatten_v(xs).contains(u) implies wf_v(u) && !(u is Union) && u != TyV::Never by {
            let i = choose|i: int| 0 <= i < flatten_v(xs).len() && flatten_v(xs)[i] == u;
            if i < rest.len() {
                assert(rest[i] == u);
                assert(rest.contains(u));
            } else {
                assert(add[i - rest.len()] == u);
                match xs.last() {
                    TyV::Union(ms) => {
                        assert(ms[i - rest.len()] == u);
                        lemma_seq_wf_v(ms);
                        assert(union_member_ok(ms[i - rest.len()]));
                    },
                    _ => {
                        assert(u == xs.last());
                    },
                }
            }
        }
    } else {
        assert(forall|u: TyV| !flatten_v(xs).contains(u));
    }
}

/// The union of valid types is valid.
#[verifier::rlimit(60)]
pub proof fn lemma_unions_wf(xs: Seq<TyV>)
    requires
        seq_wf_v(xs),
    ensures
        wf_v(unions_v(xs)),
    decreases seq_size_v(xs),
{
    let f = flatten_v(xs);
    if f.contains(TyV::Any) {
    } else {
        lemma_flatten_wf(xs);
        lemma_parts_contains(f);
        lemma_flatten_size(xs);
        lemma_parts_size(f);
        lemma_seq_wf_v(xs);
        let li = list_inners_v(f);
        let dk = dict_keys_v(f);
        let dv = dict_vals_v(f);
        let b = others_v(f);
        if li.len() > 0 {
            assert(seq_wf_v(li)) by {
                lemma_seq_wf_v(li);
                assert forall|i: int| 0 <= i < li.len() implies wf_v(#[trigger] li[i]) by {
                    assert(li.contains(li[i]));
                    assert(f.contains(TyV::List(Box::new(li[i]))));
                    assert(wf_v(TyV::List(Box::new(li[i]))));
                }
            }
            lemma_unions_wf(li);
        }
        if dk.len() > 0 {
            assert(seq_wf_v(dk)) by {
                lemma_seq_wf_v(dk);
                assert forall|i: int| 0 <= i < dk.len() implies wf_v(#[trigger] dk[i]) by {
                    assert(dk.contains(dk[i]));
                    let w = choose|w: TyV| f.contains(TyV::Dict(Box::new(dk[i]), Box::new(w)));
                    assert(wf_v(TyV::Dict(Box::new(dk[i]), Box::new(w))));
                }
            }
            assert(seq_wf_v(dv)) by {
                lemma_seq_wf_v(dv);
                assert forall|i: int| 0 <= i < dv.len() implies wf_v(#[trigger] dv[i]) by {
                    assert(dv.contains(dv[i]));
                    let w = choose|w: TyV| f.contains(TyV::Dict(Box::new(w), Box::new(dv[i])));
                    assert(wf_v(TyV::Dict(Box::new(w), Box::new(dv[i]))));
                }
            }
            lemma_unions_wf(dk);
            lemma_unions_wf(dv);
        }
        let lm = TyV::List(Box::new(unions_v(li)));
        let dm = TyV::Dict(Box::new(unions_v(dk)), Box::new(unions_v(dv)));
        let wl = if li.len() > 0 {
            b.push(lm)
        } else {
            b
        };
        let wd = if dk.len() > 0 {
            wl.push(dm)
        } else {
            wl
        };
        assert forall|u: TyV| #[trigger]
            wd.contains(u) implies wf_v(u) && union_member_ok(u) && ((u is List) ==> li.len() > 0
            && u == lm) && ((u is Dict) ==> dk.len() > 0 && u == dm) by {
            if li.len() > 0 {
                lemma_push_contains(b, lm, u);
            }
            if dk.len() > 0 {
                lemma_push_contains(wl, dm, u);
            }
            if b.contains(u) {
                assert(f.contains(u));
                assert(u != TyV::Any) by {
                    if u == TyV::Any {
                        assert(f.contains(TyV::Any));
                    }
                }
            }
        }
        let emp = Seq::<TyV>::empty();
        assert(sorted_unique_v(emp));
        lemma_insert_all(emp, wd);
        let sorted = insert_all_v(emp, wd);
        assert(forall|u: TyV| #[trigger] sorted.contains(u) ==> wd.contains(u));
        if sorted.len() == 0 {
        } else if sorted.len() == 1 {
            assert(sorted.contains(sorted[0]));
            assert(wf_v(sorted[0]));
        } else {
            assert forall|i: int| 0 <= i < sorted.len() implies wf_v(#[trigger] sorted[i])
                && union_member_ok(sorted[i]) by {
                assert(sorted.contains(sorted[i]));
            }
            lemma_seq_wf_v(sorted);
            assert forall|i: int, j: int|
                0 <= i < j < sorted.len() implies !((#[trigger] sorted[i] is List)
                && (#[trigger] sorted[j] is List)) by {
                if (sorted[i] is List) && (sorted[j] is List) {
                    assert(sorted.contains(sorted[i]));
                    assert(sorted.contains(sorted[j]));
                    assert(sorted[i] == lm && sorted[j] == lm);
                    lemma_cmp_ty_properties(sorted[i], sorted[j]);
                }
            }
            assert forall|i: int, j: int|
                0 <= i < j < sorted.len() implies !((#[trigger] sorted[i] is Dict)
                && (#[trigger] sorted[j] is Dict)) by {
                if (sorted[i] is Dict) && (sorted[j] is Dict) {
                    assert(sorted.contains(sorted[i]));
                    assert(sorted.contains(sorted[j]));
                    assert(sorted[i] == dm && sorted[j] == dm);
                    lemma_cmp_ty_properties(sorted[i], sorted[j]);
                }
            }
            assert(wf_v(TyV::Union(sorted)));
        }
    }
}


/// Inserting on the right commutes with folding the insertions.
proof fn lemma_insert_all_push(acc: Seq<TyV>, xs: Seq<TyV>, z: TyV)
    ensures
        insert_all_v(acc, xs.push(z)) == insert_sorted_v(insert_all_v(acc, xs), z),
    decreases xs.len(),
{
    if xs.len() == 0 {
        assert(xs.push(z)[0] == z);
        assert(xs.push(z).drop_first() =~= Seq::<TyV>::empty());
        assert(insert_all_v(acc, xs.push(z)) == insert_all_v(insert_sorted_v(acc, z), Seq::empty()));
    } else {
        assert(xs.push(z)[0] == xs[0]);
        assert(xs.push(z).drop_first() =~= xs.drop_first().push(z));
        lemma_insert_all_push(insert_sorted_v(acc, xs[0]), xs.drop_first(), z);
    }
}

/// Where the scan of an insertion stopped determines the result.
proof fn lemma_insert_sorted_at(acc: Seq<TyV>, t: TyV, i: int)
    requires
        0 <= i <= acc.len(),
        forall|j: int| 0 <= j < i ==> cmp_ty(t, #[trigger] acc[j]) > 0,
        i < acc.len() ==> cmp_ty(t, acc[i]) <= 0,
    ensures
        i < acc.len() && cmp_ty(t, acc[i]) == 0 ==> insert_sorted_v(acc, t) == acc,
        !(i < acc.len() && cmp_ty(t, acc[i]) == 0) ==> insert_sorted_v(acc, t) == acc.take(i)
            + seq![t] + acc.skip(i),
    decreases acc.len(),
{
    if acc.len() == 0 {
        assert(insert_sorted_v(acc, t) == seq![t]);
        assert(acc.take(0) =~= Seq::<TyV>::empty());
        assert(acc.skip(0) =~= Seq::<TyV>::empty());
        assert(acc.take(0) + seq![t] + acc.skip(0) =~= seq![t]);
    } else if i == 0 {
        if cmp_ty(t, acc[0]) < 0 {
            assert(acc.take(0) + seq![t] + acc.skip(0) =~= seq![t] + acc);
        }
    } else {
        assert(cmp_ty(t, acc[0]) > 0);
        lemma_insert_sorted_at(acc.drop_first(), t, i - 1);
        if i < acc.len() && cmp_ty(t, acc[i]) == 0 {
            assert(acc.drop_first()[i - 1] == acc[i]);
            assert(insert_sorted_v(acc.drop_first(), t) == acc.drop_first());
            assert(seq![acc[0]] + acc.drop_first() =~= acc);
        } else {
            assert(i - 1 < acc.drop_first().len() ==> acc.drop_first()[i - 1] == acc[i]);
            assert(insert_sorted_v(acc.drop_first(), t) == acc.drop_first().take(i - 1) + seq![t]
                + acc.drop_first().skip(i - 1));
            assert(seq![acc[0]] + (acc.drop_first().take(i - 1) + seq![t] + acc.drop_first().skip(
                i - 1,
            )) =~= acc.take(i) + seq![t] + acc.skip(i));
        }
    }
}

/// Insertion of a type into a vector of types held in ascending order.
fn insert_ty_sorted(sorted: &mut Vec<Ty>, t: Ty)
    ensures
        seq_views_of(final(sorted)@) == insert_sorted_v(seq_views_of(old(sorted)@), t@),
{
    let ghost accv = seq_views_of(sorted@);
    let ghost tv = t@;
    proof {
        lemma_seq_views_of(sorted@);
    }
    let mut i: usize = 0;
    let mut stop = false;
    while i < sorted.len() && !stop
        invariant
            accv == seq_views_of(sorted@),
            accv.len() == sorted@.len(),
            i <= sorted.len(),
            tv == t@,
            forall|j: int| 0 <= j < i ==> cmp_ty(tv, #[trigger] accv[j]) > 0,
            stop ==> i < sorted.len() && cmp_ty(tv, accv[i as int]) <= 0,
        decreases sorted.len() - i + if stop {
            0int
        } else {
            1int
        },
    {
        proof {
            lemma_seq_views_of(sorted@);
        }
        let c = ty_cmp(&t, &sorted[i]);
        proof {
            assert(accv[i as int] == ty_view(sorted@[i as int]));
        }
        if c > 0 {
            i = i + 1;
        } else {
            stop = true;
        }
    }
    proof {
        lemma_insert_sorted_at(accv, tv, i as int);
    }
    if i < sorted.len() {
        let c = ty_cmp(&t, &sorted[i]);
        if c == 0 {
            return ;
        }
    }
    sorted.insert(i, t);
    proof {
        lemma_seq_views_of_insert(old(sorted)@, t, i as int);
    }
}

/// The element views of a vector with one element inserted.
proof fn lemma_seq_views_of_insert(s: Seq<Ty>, t: Ty, i: int)
    requires
        0 <= i <= s.len(),
    ensures
        seq_views_of(s.insert(i, t)) =~= seq_views_of(s).take(i) + seq![ty_view(t)]
            + seq_views_of(s).skip(i),
{
    lemma_seq_views_of(s);
    lemma_seq_views_of(s.insert(i, t));
    let lhs = seq_views_of(s.insert(i, t));
    let rhs = seq_views_of(s).take(i) + seq![ty_view(t)] + seq_views_of(s).skip(i);
    assert forall|k: int| 0 <= k < lhs.len() implies lhs[k] == rhs[k] by {
        if k < i {
            assert(s.insert(i, t)[k] == s[k]);
        } else if k == i {
            assert(s.insert(i, t)[k] == t);
        } else {
            assert(s.insert(i, t)[k] == s[k - 1]);
        }
    }
}

impl Ty {
    /// Create a unions type, which will be normalised before being created.
    ///
    /// The result holds `Any` whenever `Any` is among the types, drops
    /// `Never`, flattens nested unions, merges all lists into one list of
    /// the unioned element types and all dictionaries into one dictionary,
    /// and keeps the remaining alternatives sorted without duplicates.
    pub fn unions(xs: Vec<Ty>) -> (r: Ty)
        ensures
            r@ == unions_v(seq_views_of(xs@)),
        decreases seq_size_v(seq_views_of(xs@)),
    {
        let ghost xsv = seq_views_of(xs@);
        proof {
            lemma_seq_views_of(xs@);
        }
        let mut flat: Vec<Ty> = Vec::new();
        let mut i: usize = 0;
        while i < xs.len()
            invariant
                xsv == seq_views_of(xs@),
                xsv.len() == xs@.len(),
                i <= xs.len(),
                seq_views_of(flat@) =~= flatten_v(xsv.take(i as int)),
            decreases xs.len() - i,
        {
            proof {
                lemma_seq_views_of(xs@);
                assert(xsv.take(i + 1).drop_last() =~= xsv.take(i as int));
                assert(xsv.take(i + 1).last() == xsv[i as int]);
            }
            match &xs[i] {
                Ty::Union(u) => {
                    let ghost msv = seq_views_of(u.alternatives@);
                    let ghost base = seq_views_of(flat@);
                    proof {
                        lemma_seq_views_of(u.alternatives@);
                        assert(msv.take(0) =~= Seq::<TyV>::empty());
                        assert(base + msv.take(0) =~= base);
                    }
                    let mut j: usize = 0;
                    while j < u.alternatives.len()
                        invariant
                            msv == seq_views_of(u.alternatives@),
                            msv.len() == u.alternatives@.len(),
                            j <= u.alternatives.len(),
                            seq_views_of(flat@) =~= base + msv.take(j as int),
                        decreases u.alternatives.len() - j,
                    {
                        let c = clone_ty(&u.alternatives[j]);
                        proof {
                            lemma_seq_views_of(u.alternatives@);
                            lemma_seq_views_of(flat@);
                            lemma_seq_views_of(flat@.push(c));
                            assert(seq_views_of(flat@.push(c)).drop_last() =~= seq_views_of(
                                flat@,
                            ));
                        }
                        flat.push(c);
                        j = j + 1;
                        proof {
                            assert(msv.take(j as int).drop_last() =~= msv.take(j - 1));
                            assert(msv.take(j as int).last() == msv[j - 1]);
                            assert(c@ == msv[j - 1]);
                            assert(base + msv.take(j as int) =~= (base + msv.take(j - 1)).push(
                                msv[j - 1],
                            ));
                            assert(seq_views_of(flat@) =~= base + msv.take(j as int));
                        }
                    }
                    proof {
                        assert(msv.take(u.alternatives@.len() as int) =~= msv);
                        assert(iter_union_v(xsv[i as int]) == msv);
                        assert(seq_views_of(flat@) =~= flatten_v(xsv.take(i + 1)));
                    }
                },
                Ty::Never => {
                    proof {
                        assert(iter_union_v(xsv[i as int]) =~= Seq::<TyV>::empty());
                        assert(seq_views_of(flat@) =~= flatten_v(xsv.take(i + 1)));
                    }
                },
                _ => {
                    let c = clone_ty(&xs[i]);
                    proof {
                        lemma_seq_views_of(flat@);
                        lemma_seq_views_of(flat@.push(c));
                        assert(seq_views_of(flat@.push(c)).drop_last() =~= seq_views_of(flat@));
                        assert(iter_union_v(xsv[i as int]) =~= seq![xsv[i as int]]);
                    }
                    flat.push(c);
                    proof {
                        assert(seq_views_of(flat@) =~= flatten_v(xsv.take(i + 1)));
                    }
                },
            }
            i = i + 1;
        }
        proof {
            assert(xsv.take(xs@.len() as int) =~= xsv);
        }
        let ghost flatv = seq_views_of(flat@);
        proof {
            assert(flatv == flatten_v(xsv));
            lemma_seq_views_of(flat@);
        }
        let mut i: usize = 0;
        while i < flat.len()
            invariant
                xsv == seq_views_of(xs@),
                flatv == seq_views_of(flat@),
                flatv.len() == flat@.len(),
                i <= flat.len(),
                flatv == flatten_v(xsv),
                forall|j: int| 0 <= j < i ==> #[trigger] flatv[j] != TyV::Any,
            decreases flat.len() - i,
        {
            proof {
                lemma_seq_views_of(flat@);
                assert(flatv[i as int] == ty_view(flat@[i as int]));
            }
            let is_any = match &flat[i] {
                Ty::Any => true,
                _ => false,
            };
            if is_any {
                proof {
                    assert(flatv[i as int] == TyV::Any);
                    assert(flatv.contains(TyV::Any));
                }
                return Ty::Any;
            }
            i = i + 1;
        }
        proof {
            assert(!flatv.contains(TyV::Any)) by {
                if flatv.contains(TyV::Any) {
                    let k = choose|k: int| 0 <= k < flatv.len() && flatv[k] == TyV::Any;
                }
            }
        }
        let mut lists: Vec<Ty> = Vec::new();
        let mut dks: Vec<Ty> = Vec::new();
        let mut dvs: Vec<Ty> = Vec::new();
        let mut others: Vec<Ty> = Vec::new();
        let mut i: usize = 0;
        while i < flat.len()
            invariant
                flatv == seq_views_of(flat@),
                flatv.len() == flat@.len(),
                i <= flat.len(),
                seq_views_of(lists@) =~= list_inners_v(flatv.take(i as int)),
                seq_views_of(dks@) =~= dict_keys_v(flatv.take(i as int)),
                seq_views_of(dvs@) =~= dict_vals_v(flatv.take(i as int)),
                seq_views_of(others@) =~= others_v(flatv.take(i as int)),
            decreases flat.len() - i,
        {
            proof {
                lemma_seq_views_of(flat@);
                assert(flatv.take(i + 1).drop_last() =~= flatv.take(i as int));
                assert(flatv.take(i + 1).last() == flatv[i as int]);
            }
            match &flat[i] {
                Ty::List(x) => {
                    let c = clone_ty(x);
                    proof {
                        lemma_seq_views_of(lists@);
                        lemma_seq_views_of(lists@.push(c));
                        assert(seq_views_of(lists@.push(c)).drop_last() =~= seq_views_of(lists@));
                    }
                    lists.push(c);
                },
                Ty::Dict(kv) => {
                    let ck = clone_ty(&kv.0);
                    let cv = clone_ty(&kv.1);
                    proof {
                        lemma_seq_views_of(dks@);
                        lemma_seq_views_of(dks@.push(ck));
                        assert(seq_views_of(dks@.push(ck)).drop_last() =~= seq_views_of(dks@));
                        lemma_seq_views_of(dvs@);
                        lemma_seq_views_of(dvs@.push(cv));
                        assert(seq_views_of(dvs@.push(cv)).drop_last() =~= seq_views_of(dvs@));
                    }
                    dks.push(ck);
                    dvs.push(cv);
                },
                _ => {
                    let c = clone_ty(&flat[i]);
                    proof {
                        lemma_seq_views_of(others@);
                        lemma_seq_views_of(others@.push(c));
                        assert(seq_views_of(others@.push(c)).drop_last() =~= seq_views_of(
                            others@,
                        ));
                    }
                    others.push(c);
                },
            }
            i = i + 1;
            proof {
                assert(seq_views_of(lists@) =~= list_inners_v(flatv.take(i as int)));
                assert(seq_views_of(dks@) =~= dict_keys_v(flatv.take(i as int)));
                assert(seq_views_of(dvs@) =~= dict_vals_v(flatv.take(i as int)));
                assert(seq_views_of(others@) =~= others_v(flatv.take(i as int)));
            }
        }
        proof {
            assert(flatv.take(flat@.len() as int) =~= flatv);
        }
        let ghost liv = seq_views_of(lists@);
        let ghost dkv = seq_views_of(dks@);
        let ghost dvv = seq_views_of(dvs@);
        proof {
            assert(liv == list_inners_v(flatv));
            assert(dkv == dict_keys_v(flatv));
            assert(dvv == dict_vals_v(flatv));
            lemma_seq_views_of(lists@);
            lemma_seq_views_of(dks@);
            lemma_flatten_size(xsv);
            lemma_parts_size(flatv);
        }
        if lists.len() > 0 {
            let merged = Ty::unions(lists);
            let m = Ty::List(Box::new(merged));
            proof {
                lemma_seq_views_of(others@);
                lemma_seq_views_of(others@.push(m));
                assert(seq_views_of(others@.push(m)).drop_last() =~= seq_views_of(others@));
            }
            others.push(m);
        }
        if dks.len() > 0 {
            let mk = Ty::unions(dks);
            let mv = Ty::unions(dvs);
            let m = Ty::Dict(Box::new((mk, mv)));
            proof {
                lemma_seq_views_of(others@);
                lemma_seq_views_of(others@.push(m));
                assert(seq_views_of(others@.push(m)).drop_last() =~= seq_views_of(others@));
            }
            others.push(m);
        }
        let ghost wdv = seq_views_of(others@);
        proof {
            lemma_seq_views_of(others@);
            let wlv = if liv.len() > 0 {
                others_v(flatv).push(TyV::List(Box::new(unions_v(liv))))
            } else {
                others_v(flatv)
            };
            let wdv2 = if dkv.len() > 0 {
                wlv.push(TyV::Dict(Box::new(unions_v(dkv)), Box::new(unions_v(dvv))))
            } else {
                wlv
            };
            assert(wdv == wdv2);
        }
        let mut sorted: Vec<Ty> = Vec::new();
        let mut i: usize = 0;
        while i < others.len()
            invariant
                wdv == seq_views_of(others@),
                wdv.len() == others@.len(),
                i <= others.len(),
                seq_views_of(sorted@) == insert_all_v(Seq::<TyV>::empty(), wdv.take(i as int)),
            decreases others.len() - i,
        {
            let c = clone_ty(&others[i]);
            proof {
                lemma_seq_views_of(others@);
                assert(wdv.take(i + 1) =~= wdv.take(i as int).push(c@));
                lemma_insert_all_push(Seq::<TyV>::empty(), wdv.take(i as int), c@);
            }
            insert_ty_sorted(&mut sorted, c);
            i = i + 1;
        }
        proof {
            assert(wdv.take(others@.len() as int) =~= wdv);
        }
        if sorted.len() == 0 {
            proof {
                assert(seq_views_of(sorted@).len() == 0) by {
                    lemma_seq_views_of(sorted@);
                }
            }
            Ty::Never
        } else if sorted.len() == 1 {
            let ghost sortedv = seq_views_of(sorted@);
            proof {
                lemma_seq_views_of(sorted@);
                assert(sortedv[0] == ty_view(sorted@[0]));
            }
            let r = match sorted.pop() {
                Option::Some(t) => t,
                Option::None => Ty::Never,
            };
            proof {
                assert(r@ == sortedv[0]);
            }
            r
        } else {
            proof {
                lemma_seq_views_of(sorted@);
            }
            Ty::Union(TyUnion { alternatives: sorted })
        }
    }

    /// Create a union of two entries.
    pub fn union2(a: Ty, b: Ty) -> (r: Ty)
        ensures
            r@ == unions_v(seq![a@, b@]),
    {
        let ghost av = a@;
        let ghost bv = b@;
        let mut v: Vec<Ty> = Vec::new();
        v.push(a);
        v.push(b);
        proof {
            lemma_seq_views_of(v@);
            assert(seq_views_of(v@) =~= seq![av, bv]);
        }
        Ty::unions(v)
    }
}


/// The type of `expr[i]` when `expr` has the given type, on the model.
pub open spec fn indexed_v(t: TyV, i: int) -> TyV
    decreases t,
{
    match t {
        TyV::Any => TyV::Any,
        TyV::Never => TyV::Never,
        TyV::List(x) => *x,
        TyV::Tuple(xs) => if 0 <= i < xs.len() {
            xs[i]
        } else {
            TyV::Never
        },
        TyV::Union(ms) => unions_v(indexed_seq_v(ms, i)),
        _ => TyV::Any,
    }
}

/// The indexing of each element of a sequence of types.
pub open spec fn indexed_seq_v(ms: Seq<TyV>, i: int) -> Seq<TyV>
    decreases ms,
{
    if ms.len() == 0 {
        Seq::empty()
    } else {
        indexed_seq_v(ms.drop_last(), i).push(indexed_v(ms.last(), i))
    }
}

/// Indexing a list gives its element type whatever the index; indexing a
/// tuple gives the element at the index, or `Never` out of range.
pub proof fn lemma_indexed_basics(t: TyV, xs: Seq<TyV>, i: int)
    ensures
        indexed_v(TyV::List(Box::new(t)), i) == t,
        0 <= i < xs.len() ==> indexed_v(TyV::Tuple(xs), i) == xs[i],
        !(0 <= i < xs.len()) ==> indexed_v(TyV::Tuple(xs), i) == TyV::Never,
{
}

/// The indexing of each element of a vector of types.
fn indexed_vec(ms: &Vec<Ty>, i: usize) -> (r: Vec<Ty>)
    ensures
        seq_views_of(r@) == indexed_seq_v(seq_views_of(ms@), i as int),
    decreases *ms,
{
    let ghost msv = seq_views_of(ms@);
    proof {
        lemma_seq_views_of(ms@);
    }
    let mut res: Vec<Ty> = Vec::new();
    let mut j: usize = 0;
    while j < ms.len()
        invariant
            msv == seq_views_of(ms@),
            msv.len() == ms@.len(),
            j <= ms.len(),
            seq_views_of(res@) =~= indexed_seq_v(msv.take(j as int), i as int),
        decreases ms.len() - j,
    {
        proof {
            lemma_seq_views_of(ms@);
        }
        let e = indexed_ref(&ms[j], i);
        proof {
            lemma_seq_views_of(res@);
            lemma_seq_views_of(res@.push(e));
            assert(seq_views_of(res@.push(e)).drop_last() =~= seq_views_of(res@));
            assert(msv.take(j + 1).drop_last() =~= msv.take(j as int));
            assert(msv.take(j + 1).last() == msv[j as int]);
        }
        res.push(e);
        j = j + 1;
        proof {
            assert(seq_views_of(res@) =~= indexed_seq_v(msv.take(j as int), i as int));
        }
    }
    proof {
        assert(msv.take(ms@.len() as int) =~= msv);
    }
    res
}

/// The type of `expr[i]` for a borrowed type.
fn indexed_ref(t: &Ty, i: usize) -> (r: Ty)
    ensures
        r@ == indexed_v(t@, i as int),
    decreases *t,
{
    match t {
        Ty::Any => Ty::Any,
        Ty::Never => Ty::Never,
        Ty::List(x) => clone_ty(x),
        Ty::Tuple(xs) => {
            proof {
                lemma_seq_views_of(xs@);
            }
            if i < xs.len() {
                clone_ty(&xs[i])
            } else {
                Ty::Never
            }
        },
        Ty::Union(u) => {
            let res = indexed_vec(&u.alternatives, i);
            proof {
                assert(seq_views_of(res@) == indexed_seq_v(seq_views_of(u.alternatives@), i as int));
            }
            Ty::unions(res)
        },
        _ => Ty::Any,
    }
}

impl Ty {
    /// If I do `self[i]`, what will the resulting type be.
    ///
    /// `Any` and `Never` index to themselves, a list indexes to its element
    /// type whatever the index, a tuple to the element at the index or
    /// `Never` out of range, and a union to the union of its alternatives'
    /// indexings.  Anything else indexes to `Any`.
    pub fn indexed(self, i: usize) -> (r: Ty)
        ensures
            r@ == indexed_v(self@, i as int),
    {
        indexed_ref(&self, i)
    }

    /// The types within a union, the type itself if it is not a union,
    /// and nothing for `Never`.
    pub fn iter_union(&self) -> (r: Vec<Ty>)
        ensures
            seq_views_of(r@) == iter_union_v(self@),
    {
        match self {
            Ty::Union(u) => clone_tys_pub(&u.alternatives),
            Ty::Never => {
                let r: Vec<Ty> = Vec::new();
                proof {
                    assert(seq_views_of(r@) =~= iter_union_v(self@));
                }
                r
            },
            _ => {
                let mut r: Vec<Ty> = Vec::new();
                let c = clone_ty(self);
                proof {
                    lemma_seq_views_of(r@.push(c));
                    assert(seq_views_of(r@.push(c)).drop_last() =~= seq_views_of(r@));
                    assert(seq_views_of(r@.push(c)) =~= iter_union_v(self@));
                }
                r.push(c);
                r
            },
        }
    }
}

/// A structural copy of a vector of types.
fn clone_tys_pub(ts: &Vec<Ty>) -> (r: Vec<Ty>)
    ensures
        seq_views_of(r@) == seq_views_of(ts@),
{
    crate::ty::clone_tys(ts)
}

} // verus!
