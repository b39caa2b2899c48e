//! Lexicographic order on byte strings: the order in which the store keeps its keys.

use vstd::prelude::*;

verus! {

/// `a` and `b` agree on their first `i` bytes, and at position `i` either `a` has ended and
/// `b` has not, or `a` holds the smaller byte.
pub open spec fn precedes_at(a: Seq<u8>, b: Seq<u8>, i: int) -> bool {
    &&& 0 <= i <= a.len()
    &&& i < b.len()
    &&& forall|j: int| 0 <= j < i ==> a[j] == b[j]
    &&& (i < a.len() ==> a[i] < b[i])
}

/// `a` sorts strictly before `b`.
pub open spec fn lex_lt(a: Seq<u8>, b: Seq<u8>) -> bool {
    exists|i: int| precedes_at(a, b, i)
}

/// `a` sorts before `b` or is `b`.
pub open spec fn lex_le(a: Seq<u8>, b: Seq<u8>) -> bool {
    a == b || lex_lt(a, b)
}

/// `key` lies in the half-open range `[begin, end)`.
pub open spec fn in_range(key: Seq<u8>, begin: Seq<u8>, end: Seq<u8>) -> bool {
    lex_le(begin, key) && lex_lt(key, end)
}

/// `key` starts with `prefix`.
pub open spec fn has_prefix(key: Seq<u8>, prefix: Seq<u8>) -> bool {
    prefix.len() <= key.len() && key.subrange(0, prefix.len() as int) == prefix
}

/// No byte string sorts before itself.
pub proof fn lemma_lex_lt_irreflexive(a: Seq<u8>)
    ensures
        !lex_lt(a, a),
{
}

/// Of two byte strings at most one sorts before the other.
pub proof fn lemma_lex_lt_asymmetric(a: Seq<u8>, b: Seq<u8>)
    requires
        lex_lt(a, b),
    ensures
        !lex_lt(b, a),
        a != b,
{
    let i = choose|i: int| precedes_at(a, b, i);
    if lex_lt(b, a) {
        let j = choose|j: int| precedes_at(b, a, j);
        if i < j {
            assert(b[i] == a[i]);
        } else if j < i {
            assert(a[j] == b[j]);
        }
    }
}

/// The order is transitive.
pub proof fn lemma_lex_lt_transitive(a: Seq<u8>, b: Seq<u8>, c: Seq<u8>)
    requires
        lex_lt(a, b),
        lex_lt(b, c),
    ensures
        lex_lt(a, c),
{
    let i = choose|i: int| precedes_at(a, b, i);
    let j = choose|j: int| precedes_at(b, c, j);
    let k = if i <= j {
        i
    } else {
        j
    };
    assert forall|m: int| 0 <= m < k implies a[m] == c[m] by {
        assert(a[m] == b[m]);
        assert(b[m] == c[m]);
    }
    assert(precedes_at(a, c, k));
}

/// Any two byte strings are equal or ordered one way.
pub proof fn lemma_lex_total(a: Seq<u8>, b: Seq<u8>)
    ensures
        a == b || lex_lt(a, b) || lex_lt(b, a),
    decreases a.len(),
{
    if a.len() == 0 {
        if b.len() == 0 {
            assert(a =~= b);
        } else {
            assert(precedes_at(a, b, 0));
        }
    } else if b.len() == 0 {
        assert(precedes_at(b, a, 0));
    } else {
        lemma_first_difference(a, b, 0);
    }
}

/// Two byte strings that agree up to `from` are equal or ordered one way.
proof fn lemma_first_difference(a: Seq<u8>, b: Seq<u8>, from: int)
    requires
        0 <= from <= a.len(),
        from <= b.len(),
        forall|j: int| 0 <= j < from ==> a[j] == b[j],
    ensures
        a == b || lex_lt(a, b) || lex_lt(b, a),
    decreases a.len() - from,
{
    if from == a.len() {
        if from == b.len() {
            assert(a =~= b);
        } else {
            assert(precedes_at(a, b, from));
        }
    } else if from == b.len() {
        assert(precedes_at(b, a, from));
    } else if a[from] < b[from] {
        assert(precedes_at(a, b, from));
    } else if b[from] < a[from] {
        assert(precedes_at(b, a, from));
    } else {
        lemma_first_difference(a, b, from + 1);
    }
}

/// A common prefix does not change the order of what follows it.
pub proof fn lemma_lex_lt_common_prefix(p: Seq<u8>, x: Seq<u8>, y: Seq<u8>)
    ensures
        lex_lt(p + x, p + y) <==> lex_lt(x, y),
{
    let n = p.len() as int;
    if lex_lt(x, y) {
        let i = choose|i: int| precedes_at(x, y, i);
        assert forall|j: int| 0 <= j < n + i implies (p + x)[j] == (p + y)[j] by {
            if j >= n {
                assert(x[j - n] == y[j - n]);
            }
        }
        assert(precedes_at(p + x, p + y, n + i));
    }
    if lex_lt(p + x, p + y) {
        let i = choose|i: int| precedes_at(p + x, p + y, i);
        if i < n {
            assert((p + x)[i] == p[i]);
            assert((p + y)[i] == p[i]);
        }
        assert forall|j: int| 0 <= j < i - n implies x[j] == y[j] by {
            assert((p + x)[j + n] == (p + y)[j + n]);
        }
        if i - n < x.len() {
            assert((p + x)[i] == x[i - n]);
            assert((p + y)[i] == y[i - n]);
        }
        assert(precedes_at(x, y, i - n));
    }
}

/// Two strings that start with fields of one width are ordered by those fields first, and by
/// what follows them where the fields are equal.
pub proof fn lemma_lex_lt_fields(a1: Seq<u8>, r1: Seq<u8>, a2: Seq<u8>, r2: Seq<u8>)
    requires
        a1.len() == a2.len(),
    ensures
        lex_lt(a1 + r1, a2 + r2) <==> lex_lt(a1, a2) || (a1 == a2 && lex_lt(r1, r2)),
{
    let n = a1.len() as int;
    if a1 == a2 {
        lemma_lex_lt_common_prefix(a1, r1, r2);
        lemma_lex_lt_irreflexive(a1);
    } else {
        if lex_lt(a1, a2) {
            let i = choose|i: int| precedes_at(a1, a2, i);
            assert(i < n);
            assert forall|j: int| 0 <= j < i implies (a1 + r1)[j] == (a2 + r2)[j] by {
                assert(a1[j] == a2[j]);
            }
            assert((a1 + r1)[i] == a1[i]);
            assert((a2 + r2)[i] == a2[i]);
            assert(precedes_at(a1 + r1, a2 + r2, i));
        }
        if lex_lt(a1 + r1, a2 + r2) {
            let i = choose|i: int| precedes_at(a1 + r1, a2 + r2, i);
            if i >= n {
                assert forall|j: int| 0 <= j < n implies a1[j] == a2[j] by {
                    assert((a1 + r1)[j] == (a2 + r2)[j]);
                }
                assert(a1 =~= a2);
            } else {
                assert forall|j: int| 0 <= j < i implies a1[j] == a2[j] by {
                    assert((a1 + r1)[j] == (a2 + r2)[j]);
                }
                assert((a1 + r1)[i] == a1[i]);
                assert((a2 + r2)[i] == a2[i]);
                assert(precedes_at(a1, a2, i));
            }
        }
    }
}

/// The range from a prefix to the prefix followed by `0xff` holds exactly the keys that start
/// with the prefix and do not go on with the byte `0xff`.
pub proof fn lemma_prefix_range(key: Seq<u8>, prefix: Seq<u8>)
    ensures
        in_range(key, prefix, prefix.push(0xffu8)) <==> has_prefix(key, prefix) && (key.len()
            > prefix.len() ==> key[prefix.len() as int] != 0xffu8),
{
    let n = prefix.len() as int;
    let end = prefix.push(0xffu8);
    if has_prefix(key, prefix) && (key.len() > n ==> key[n] != 0xffu8) {
        assert forall|j: int| 0 <= j < n implies key[j] == prefix[j] by {
            assert(key.subrange(0, n)[j] == key[j]);
        }
        if key.len() == n {
            assert(key =~= prefix);
        } else {
            assert(precedes_at(prefix, key, n));
        }
        assert(precedes_at(key, end, n));
    }
    if in_range(key, prefix, end) {
        let e = choose|e: int| precedes_at(key, end, e);
        if key != prefix {
            let b = choose|b: int| precedes_at(prefix, key, b);
            if b < n {
                if e <= b {
                    assert(end[e] == prefix[e]);
                } else {
                    assert(end[b] == prefix[b]);
                }
            }
            if e < n {
                assert(end[e] == prefix[e]);
            }
        }
        assert(key.subrange(0, n) =~= prefix);
    }
}

} // verus!
