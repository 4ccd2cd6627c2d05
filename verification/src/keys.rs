//! Byte-string arithmetic behind range bounds.
//!
//! Keys are ordered as byte strings: position by position, a shorter string
//! before each of its extensions. An ordered engine takes an inclusive start and
//! a half-open stop, so an exclusive lower bound or an inclusive upper bound has
//! to be moved to the next byte string (`advance_key`), and an exclusive start of
//! a backward scan to the previous one (`retreat_key`).

use vstd::prelude::*;

verus! {

/// `a` is the beginning of `b`, or all of it.
pub open spec fn is_prefix(a: Seq<u8>, b: Seq<u8>) -> bool {
    a.len() <= b.len() && forall|j: int| 0 <= j < a.len() ==> a[j] == b[j]
}

/// `b` begins with `a` and is longer.
pub open spec fn extends(b: Seq<u8>, a: Seq<u8>) -> bool {
    is_prefix(a, b) && a.len() < b.len()
}

/// `i` is the first position at which `a` and `b` hold different bytes.
pub open spec fn differ_at(a: Seq<u8>, b: Seq<u8>, i: int) -> bool {
    &&& 0 <= i < a.len()
    &&& i < b.len()
    &&& a[i] != b[i]
    &&& forall|j: int| 0 <= j < i ==> a[j] == b[j]
}

/// `a` comes strictly before `b` in byte order.
pub open spec fn lex_lt(a: Seq<u8>, b: Seq<u8>) -> bool {
    extends(b, a) || exists|i: int| differ_at(a, b, i) && a[i] < b[i]
}

/// `a` comes before `b` in byte order, or is `b`.
pub open spec fn lex_le(a: Seq<u8>, b: Seq<u8>) -> bool {
    a == b || lex_lt(a, b)
}

/// The byte string that follows `s` when a bound moves up: the last byte goes up
/// by one, and where it cannot (it is 255, or there is none) a zero byte is
/// added instead.
pub open spec fn advanced(s: Seq<u8>) -> Seq<u8> {
    if s.len() == 0 || s.last() == 255u8 {
        s.push(0u8)
    } else {
        s.update(s.len() - 1, (s.last() + 1) as u8)
    }
}

/// The byte string that precedes `s` when a bound moves down: the last byte goes
/// down by one, and a last byte of zero is dropped instead.
pub open spec fn retreated(s: Seq<u8>) -> Seq<u8>
    recommends
        s.len() > 0,
{
    if s.last() == 0u8 {
        s.drop_last()
    } else {
        s.update(s.len() - 1, (s.last() - 1) as u8)
    }
}

/// Replaces `bytes` by `advanced(bytes)`.
pub fn advance_key(bytes: &mut Vec<u8>)
    ensures
        final(bytes)@ == advanced(old(bytes)@),
{
    let n: usize = bytes.len();
    if n == 0 || bytes[n - 1] == 255u8 {
        bytes.push(0u8);
    } else {
        let last: u8 = bytes[n - 1];
        bytes.set(n - 1, last + 1);
        assert(bytes@ =~= advanced(old(bytes)@));
    }
}

/// Replaces `bytes` by `retreated(bytes)`. The empty string has no predecessor.
pub fn retreat_key(bytes: &mut Vec<u8>)
    requires
        old(bytes)@.len() > 0,
    ensures
        final(bytes)@ == retreated(old(bytes)@),
{
    let n: usize = bytes.len();
    let last: u8 = bytes[n - 1];
    if last == 0u8 {
        bytes.pop();
    } else {
        bytes.set(n - 1, last - 1);
        assert(bytes@ =~= retreated(old(bytes)@));
    }
}

/// Two byte strings of which neither begins with the other differ at a first
/// position. `from` is a position up to which they are known to agree.
proof fn first_difference(a: Seq<u8>, b: Seq<u8>, from: int) -> (i: int)
    requires
        !is_prefix(a, b),
        !is_prefix(b, a),
        0 <= from <= a.len(),
        from <= b.len(),
        forall|j: int| 0 <= j < from ==> a[j] == b[j],
    ensures
        differ_at(a, b, i),
    decreases a.len() - from,
{
    if from == a.len() {
        assert(is_prefix(a, b));
        0
    } else if from == b.len() {
        assert(is_prefix(b, a));
        0
    } else if a[from] != b[from] {
        from
    } else {
        first_difference(a, b, from + 1)
    }
}

/// Byte order is total: of two byte strings one comes before the other, or they
/// are the same.
pub proof fn order_is_total(a: Seq<u8>, b: Seq<u8>)
    ensures
        lex_lt(a, b) || a == b || lex_lt(b, a),
{
    if is_prefix(a, b) {
        if a.len() == b.len() {
            assert(a =~= b);
        }
    } else if is_prefix(b, a) {
    } else {
        let i = first_difference(a, b, 0);
        assert(differ_at(b, a, i));
    }
}

/// Byte order is strict: no byte string comes before itself, and of two byte
/// strings at most one comes before the other.
pub proof fn order_is_strict(a: Seq<u8>, b: Seq<u8>)
    ensures
        !(lex_lt(a, b) && lex_lt(b, a)),
        lex_lt(a, b) ==> a != b,
{
    if lex_lt(a, b) && (lex_lt(b, a) || a == b) {
        if extends(b, a) {
            if !extends(a, b) && a != b {
                let j = choose|j: int| differ_at(b, a, j) && b[j] < a[j];
                assert(a[j] == b[j]);
            }
        } else {
            let i = choose|i: int| differ_at(a, b, i) && a[i] < b[i];
            if extends(a, b) {
                assert(b[i] == a[i]);
            } else if a != b {
                let j = choose|j: int| differ_at(b, a, j) && b[j] < a[j];
                if i < j {
                    assert(b[i] == a[i]);
                } else if j < i {
                    assert(a[j] == b[j]);
                }
            }
        }
    }
}

/// A key moved up by `advance_key` comes strictly after the key it was.
pub proof fn advance_is_greater(s: Seq<u8>)
    ensures
        lex_lt(s, advanced(s)),
{
    if s.len() == 0 || s.last() == 255u8 {
        assert(extends(advanced(s), s));
    } else {
        assert(differ_at(s, advanced(s), s.len() - 1));
    }
}

/// `retreat_key` undoes `advance_key`, on every key.
pub proof fn retreat_undoes_advance(s: Seq<u8>)
    ensures
        advanced(s).len() > 0,
        retreated(advanced(s)) == s,
{
    assert(retreated(advanced(s)) =~= s);
}

/// A key moved down by `retreat_key` comes strictly before the key it was.
pub proof fn retreat_is_smaller(s: Seq<u8>)
    requires
        s.len() > 0,
    ensures
        lex_lt(retreated(s), s),
{
    if s.last() == 0u8 {
        assert(extends(s, retreated(s)));
    } else {
        assert(differ_at(retreated(s), s, s.len() - 1));
    }
}

/// Between a key and the key `advance_key` makes of it lie only extensions of
/// the key, and none at all where a zero byte was added. So for every `k` that
/// does not lie in that gap, "at or after `advanced(s)`" says the same as
/// "strictly after `s`", and "before `advanced(s)`" the same as "at or before
/// `s`". No key of the length of `s` lies in the gap.
pub proof fn advance_skips_only_extensions(s: Seq<u8>, k: Seq<u8>)
    requires
        advanced(s).len() == s.len() ==> !extends(k, s),
    ensures
        lex_le(advanced(s), k) <==> lex_lt(s, k),
        lex_lt(k, advanced(s)) <==> lex_le(k, s),
{
    let t = advanced(s);
    order_is_total(t, k);
    order_is_total(s, k);
    order_is_strict(t, k);
    order_is_strict(s, k);
    advance_is_greater(s);
    // It is enough to show: s < k implies t <= k, and t <= k implies s < k.
    if lex_lt(s, k) {
        if extends(k, s) {
            // then t is s with a zero byte added
            if k.len() == t.len() && k[s.len() as int] == 0u8 {
                assert(k =~= t);
            } else if k[s.len() as int] == 0u8 {
                assert(extends(k, t));
            } else {
                assert(differ_at(t, k, s.len() as int));
            }
        } else {
            let i = choose|i: int| differ_at(s, k, i) && s[i] < k[i];
            if t.len() > s.len() || i < s.len() - 1 {
                assert(differ_at(t, k, i));
            } else if k[i] == t[i] {
                if k.len() == t.len() {
                    assert(k =~= t);
                } else {
                    assert(extends(k, t));
                }
            } else {
                assert(differ_at(t, k, i));
            }
        }
        assert(lex_le(t, k));
    }
    if lex_le(t, k) && !lex_lt(s, k) {
        // then k <= s < t <= k
        if k == s {
        } else {
            lex_lt_transitive(k, s, t);
        }
    }
}

/// Between the key `retreat_key` makes of a key and the key itself lie only
/// extensions of the former, and none at all where a zero byte was dropped. So
/// for every `k` that does not lie in that gap, "at or before `retreated(s)`"
/// says the same as "strictly before `s`". No key of the length of `s` lies in
/// the gap.
pub proof fn retreat_skips_only_extensions(s: Seq<u8>, k: Seq<u8>)
    requires
        s.len() > 0,
        retreated(s).len() == s.len() ==> !extends(k, retreated(s)),
    ensures
        lex_le(k, retreated(s)) <==> lex_lt(k, s),
{
    let p = retreated(s);
    order_is_total(p, k);
    order_is_total(s, k);
    order_is_strict(p, k);
    order_is_strict(s, k);
    retreat_is_smaller(s);
    if lex_lt(k, s) && !lex_le(k, p) {
        // p < k < s
        if extends(k, p) {
            // then s is p with a zero byte added
            if extends(s, k) {
            } else {
                let j = choose|j: int| differ_at(k, s, j) && k[j] < s[j];
                if j < p.len() {
                    assert(k[j] == p[j]);
                }
            }
        } else {
            let i = choose|i: int| differ_at(p, k, i) && p[i] < k[i];
            if extends(s, k) {
                assert(k[i] == s[i]);
                assert(p[i] == s[i]);
            } else {
                let j = choose|j: int| differ_at(k, s, j) && k[j] < s[j];
                if j < i {
                    assert(p[j] == k[j]);
                    if j < p.len() - 1 || s.last() == 0u8 {
                        assert(p[j] == s[j]);
                    }
                } else if i < j {
                    assert(k[i] == s[i]);
                    assert(p[i] <= s[i]);
                }
            }
        }
    }
    if lex_le(k, p) && !lex_lt(k, s) {
        if k == p {
        } else {
            lex_lt_transitive(k, p, s);
        }
    }
}

/// Byte order is transitive.
pub proof fn lex_lt_transitive(a: Seq<u8>, b: Seq<u8>, c: Seq<u8>)
    requires
        lex_lt(a, b),
        lex_lt(b, c),
    ensures
        lex_lt(a, c),
{
    if extends(b, a) {
        if extends(c, b) {
            assert(extends(c, a));
        } else {
            let j = choose|j: int| differ_at(b, c, j) && b[j] < c[j];
            if j < a.len() {
                assert(differ_at(a, c, j));
            } else {
                assert(extends(c, a));
            }
        }
    } else {
        let i = choose|i: int| differ_at(a, b, i) && a[i] < b[i];
        if extends(c, b) {
            assert(differ_at(a, c, i));
        } else {
            let j = choose|j: int| differ_at(b, c, j) && b[j] < c[j];
            if i <= j {
                assert(differ_at(a, c, i));
            } else {
                assert(differ_at(a, c, j));
            }
        }
    }
}

} // verus!
