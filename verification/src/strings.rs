//! Verified helpers over strings: equality, lexicographic comparison and
//! concatenation, all specified over the character sequences of the strings.

use vstd::prelude::*;
use vstd::string::*;
use vstd::utf8::char_u32_cast;

verus! {

/// Lexicographic comparison of two character sequences: `-1`, `0` or `1`.
/// Characters are ordered by their scalar values.
pub open spec fn cmp_chars(a: Seq<char>, b: Seq<char>) -> int
    decreases a.len(),
{
    if a.len() == 0 && b.len() == 0 {
        0int
    } else if a.len() == 0 {
        -1int
    } else if b.len() == 0 {
        1int
    } else if (a[0] as u32) < (b[0] as u32) {
        -1int
    } else if (b[0] as u32) < (a[0] as u32) {
        1int
    } else {
        cmp_chars(a.drop_first(), b.drop_first())
    }
}

/// `cmp_chars` is within `-1 ..= 1`, reports `0` exactly on equal sequences,
/// and is antisymmetric.
pub proof fn lemma_cmp_chars_properties(a: Seq<char>, b: Seq<char>)
    ensures
        -1 <= cmp_chars(a, b) <= 1,
        (cmp_chars(a, b) == 0) <==> (a == b),
        cmp_chars(b, a) == -cmp_chars(a, b),
    decreases a.len(),
{
    if a.len() == 0 && b.len() == 0 {
        assert(a =~= b);
    } else if a.len() == 0 || b.len() == 0 {
    } else if (a[0] as u32) < (b[0] as u32) || (b[0] as u32) < (a[0] as u32) {
        assert(a[0] != b[0]);
    } else {
        assert(a[0] as u32 == b[0] as u32);
        assert(a[0] == b[0]) by {
            char_u32_cast(a[0], a[0] as u32);
            char_u32_cast(b[0], b[0] as u32);
        }
        lemma_cmp_chars_properties(a.drop_first(), b.drop_first());
        if cmp_chars(a, b) == 0 {
            assert(a.drop_first() == b.drop_first());
            assert forall|i: int| 0 <= i < a.len() implies a[i] == b[i] by {
                if i >= 1 {
                    assert(a.drop_first()[i - 1] == b.drop_first()[i - 1]);
                }
            }
            assert(a =~= b);
        }
        if a == b {
            assert(a.drop_first() == b.drop_first());
        }
    }
}

/// `cmp_chars` is transitive, strictly where either step is strict.
pub proof fn lemma_cmp_chars_trans(a: Seq<char>, b: Seq<char>, c: Seq<char>)
    requires
        cmp_chars(a, b) <= 0,
        cmp_chars(b, c) <= 0,
    ensures
        cmp_chars(a, c) <= 0,
        cmp_chars(a, b) < 0 || cmp_chars(b, c) < 0 ==> cmp_chars(a, c) < 0,
    decreases a.len() + b.len() + c.len(),
{
    lemma_cmp_chars_properties(a, b);
    lemma_cmp_chars_properties(b, c);
    lemma_cmp_chars_properties(a, c);
    if a == b {
    } else if b == c {
    } else if a.len() == 0 {
    } else {
        // a, b, c are all non-empty: an empty b or c would force a strict
        // comparison the other way.
        assert(b.len() > 0);
        assert(c.len() > 0);
        if a[0] as u32 == b[0] as u32 && b[0] as u32 == c[0] as u32 {
            lemma_cmp_chars_trans(a.drop_first(), b.drop_first(), c.drop_first());
        }
    }
}

/// Equality of two strings, decided character by character.
pub fn str_eq(a: &str, b: &str) -> (r: bool)
    ensures
        r == (a@ == b@),
{
    let alen = a.unicode_len();
    let blen = b.unicode_len();
    if alen != blen {
        proof {
            assert(a@ != b@);
        }
        return false;
    }
    let mut i: usize = 0;
    while i < alen
        invariant
            alen == a@.len(),
            blen == b@.len(),
            alen == blen,
            i <= alen,
            forall|j: int| 0 <= j < i ==> a@[j] == b@[j],
        decreases alen - i,
    {
        if a.get_char(i) != b.get_char(i) {
            proof {
                assert(a@[i as int] != b@[i as int]);
            }
            return false;
        }
        i = i + 1;
    }
    proof {
        assert(a@ =~= b@);
    }
    true
}

/// `cmp_chars` ignores an equal prefix.
proof fn lemma_cmp_chars_skip(a: Seq<char>, b: Seq<char>, i: int)
    requires
        0 <= i <= a.len(),
        i <= b.len(),
        forall|j: int| 0 <= j < i ==> a[j] == b[j],
    ensures
        cmp_chars(a, b) == cmp_chars(a.skip(i), b.skip(i)),
    decreases i,
{
    if i == 0 {
        assert(a.skip(0) =~= a);
        assert(b.skip(0) =~= b);
    } else {
        assert(a.len() > 0 && b.len() > 0);
        assert(a[0] == b[0]);
        assert(a[0] as u32 == b[0] as u32);
        lemma_cmp_chars_skip(a.drop_first(), b.drop_first(), i - 1);
        assert(a.drop_first().skip(i - 1) =~= a.skip(i));
        assert(b.drop_first().skip(i - 1) =~= b.skip(i));
    }
}

/// Lexicographic comparison of two strings: `-1`, `0` or `1`.
pub fn str_cmp(a: &str, b: &str) -> (r: i8)
    ensures
        r as int == cmp_chars(a@, b@),
{
    let alen = a.unicode_len();
    let blen = b.unicode_len();
    let n = if alen < blen {
        alen
    } else {
        blen
    };
    let mut i: usize = 0;
    while i < n
        invariant
            alen == a@.len(),
            blen == b@.len(),
            n == if alen < blen {
                alen
            } else {
                blen
            },
            i <= n,
            forall|j: int| 0 <= j < i ==> a@[j] == b@[j],
        decreases n - i,
    {
        let ca = a.get_char(i);
        let cb = b.get_char(i);
        if (ca as u32) < (cb as u32) {
            proof {
                lemma_cmp_chars_skip(a@, b@, i as int);
                assert(a@.skip(i as int)[0] == a@[i as int]);
                assert(b@.skip(i as int)[0] == b@[i as int]);
            }
            return -1;
        }
        if (cb as u32) < (ca as u32) {
            proof {
                lemma_cmp_chars_skip(a@, b@, i as int);
                assert(a@.skip(i as int)[0] == a@[i as int]);
                assert(b@.skip(i as int)[0] == b@[i as int]);
            }
            return 1;
        }
        proof {
            assert(a@[i as int] == b@[i as int]);
        }
        i = i + 1;
    }
    proof {
        lemma_cmp_chars_skip(a@, b@, n as int);
    }
    if alen < blen {
        proof {
            assert(a@.skip(n as int).len() == 0);
            assert(b@.skip(n as int).len() > 0);
        }
        -1
    } else if blen < alen {
        proof {
            assert(b@.skip(n as int).len() == 0);
            assert(a@.skip(n as int).len() > 0);
        }
        1
    } else {
        proof {
            assert(a@.skip(n as int).len() == 0);
            assert(b@.skip(n as int).len() == 0);
        }
        0
    }
}

/// A copy of a string slice as an owned string.
pub fn str_to_string(s: &str) -> (r: String)
    ensures
        r@ == s@,
{
    s.to_owned()
}

/// A new string holding `a` then `b`.
pub fn str_concat(a: &str, b: &str) -> (r: String)
    ensures
        r@ == a@ + b@,
{
    let mut r = a.to_owned();
    r.append(b);
    r
}

} // verus!
