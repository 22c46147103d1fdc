//! Lexicographic order on account ids and a verified sort.

use vstd::prelude::*;
use vstd::string::*;
use crate::collections::{has_view, unique_views};

verus! {

/// `a` sorts strictly before `b`: a proper prefix of it, or smaller at the
/// first differing position (by code point, the byte order of UTF-8).
pub open spec fn lex_lt(a: Seq<char>, b: Seq<char>) -> bool {
    exists|k: int|
        #![trigger a.subrange(0, k), b.subrange(0, k)]
        0 <= k <= a.len() && k <= b.len() && a.subrange(0, k) == b.subrange(0, k) && ((k == a.len()
            && k < b.len()) || (k < a.len() && k < b.len() && (a[k] as u32) < (b[k] as u32)))
}

/// Every id sorts strictly before the ids after it.
pub open spec fn sorted_strictly(s: Seq<String>) -> bool {
    forall|i: int, j: int| 0 <= i < j < s.len() ==> #[trigger] lex_lt(s[i]@, s[j]@)
}

/// The lexicographic order is transitive.
pub proof fn lemma_lex_lt_transitive(a: Seq<char>, b: Seq<char>, c: Seq<char>)
    requires
        lex_lt(a, b),
        lex_lt(b, c),
    ensures
        lex_lt(a, c),
{
    let k1 = choose|k: int|
        #![trigger a.subrange(0, k), b.subrange(0, k)]
        0 <= k <= a.len() && k <= b.len() && a.subrange(0, k) == b.subrange(0, k) && ((k == a.len()
            && k < b.len()) || (k < a.len() && k < b.len() && (a[k] as u32) < (b[k] as u32)));
    let k2 = choose|k: int|
        #![trigger b.subrange(0, k), c.subrange(0, k)]
        0 <= k <= b.len() && k <= c.len() && b.subrange(0, k) == c.subrange(0, k) && ((k == b.len()
            && k < c.len()) || (k < b.len() && k < c.len() && (b[k] as u32) < (c[k] as u32)));
    let k = if k1 <= k2 { k1 } else { k2 };
    assert forall|j: int| 0 <= j < k implies a[j] == c[j] by {
        assert(a.subrange(0, k1)[j] == b.subrange(0, k1)[j]);
        assert(b.subrange(0, k2)[j] == c.subrange(0, k2)[j]);
    }
    assert(a.subrange(0, k) =~= c.subrange(0, k));
    if k1 < k2 {
        assert(b.subrange(0, k2)[k1] == c.subrange(0, k2)[k1]);
    } else if k2 < k1 {
        assert(a.subrange(0, k1)[k2] == b.subrange(0, k1)[k2]);
    }
}

/// Result of comparing two account ids.
#[derive(PartialEq, Eq, Structural, Copy, Clone, Debug)]
pub enum IdOrder {
    Less,
    Equal,
    Greater,
}

/// Compares two account ids lexicographically.
pub fn compare_ids(a: &String, b: &String) -> (r: IdOrder)
    ensures
        r == IdOrder::Less ==> lex_lt(a@, b@),
        r == IdOrder::Greater ==> lex_lt(b@, a@),
        r == IdOrder::Equal ==> a@ == b@,
{
    let sa = a.as_str();
    let sb = b.as_str();
    let la = sa.unicode_len();
    let lb = sb.unicode_len();
    let mut i: usize = 0;
    while i < la && i < lb
        invariant
            sa@ == a@,
            sb@ == b@,
            la == a@.len(),
            lb == b@.len(),
            i <= la,
            i <= lb,
            forall|j: int| 0 <= j < i ==> a@[j] == b@[j],
        decreases la - i,
    {
        let ca = sa.get_char(i);
        let cb = sb.get_char(i);
        if ca != cb {
            assert(a@.subrange(0, i as int) =~= b@.subrange(0, i as int));
            if (ca as u32) < (cb as u32) {
                return IdOrder::Less;
            } else {
                assert((cb as u32) != (ca as u32));
                return IdOrder::Greater;
            }
        }
        i = i + 1;
    }
    assert(a@.subrange(0, i as int) =~= b@.subrange(0, i as int));
    if la < lb {
        IdOrder::Less
    } else if lb < la {
        IdOrder::Greater
    } else {
        assert(a@ =~= b@);
        IdOrder::Equal
    }
}

/// Where `x` goes in the sorted `out`: after every id below it, before the rest.
fn insertion_point(out: &Vec<String>, x: &String) -> (p: usize)
    requires
        sorted_strictly(out@),
        !has_view(out@, x@),
    ensures
        p <= out@.len(),
        forall|q: int| 0 <= q < p ==> lex_lt(out@[q]@, x@),
        forall|q: int| p <= q < out@.len() ==> lex_lt(x@, out@[q]@),
{
    let mut p: usize = 0;
    while p < out.len()
        invariant
            p <= out.len(),
            sorted_strictly(out@),
            !has_view(out@, x@),
            forall|q: int| 0 <= q < p ==> lex_lt(out@[q]@, x@),
        decreases out.len() - p,
    {
        let c = compare_ids(x, &out[p]);
        if c == IdOrder::Less {
            proof {
                assert forall|q: int| p <= q < out@.len() implies lex_lt(x@, out@[q]@) by {
                    if q > p {
                        assert(lex_lt(out@[p as int]@, out@[q]@));
                        lemma_lex_lt_transitive(x@, out@[p as int]@, out@[q]@);
                    }
                }
            }
            return p;
        }
        if c == IdOrder::Equal {
            assert(has_view(out@, x@));
        }
        p = p + 1;
    }
    p
}

/// Inserting `x` at its insertion point keeps the sequence sorted.
proof fn lemma_insert_sorted(s: Seq<String>, p: int, x: String)
    requires
        sorted_strictly(s),
        0 <= p <= s.len(),
        forall|q: int| 0 <= q < p ==> lex_lt(s[q]@, x@),
        forall|q: int| p <= q < s.len() ==> lex_lt(x@, s[q]@),
    ensures
        sorted_strictly(s.insert(p, x)),
{
    let r = s.insert(p, x);
    assert forall|a: int, b: int| 0 <= a < b < r.len() implies lex_lt(r[a]@, r[b]@) by {
        if b < p {
        } else if a < p && b == p {
        } else if a < p {
            assert(r[b] == s[b - 1]);
        } else if a == p {
            assert(r[b] == s[b - 1]);
        } else {
            assert(r[a] == s[a - 1]);
            assert(r[b] == s[b - 1]);
        }
    }
}

/// After inserting `x`, the ids present are those before plus `x`.
proof fn lemma_insert_members(s: Seq<String>, p: int, x: String)
    requires
        0 <= p <= s.len(),
    ensures
        forall|y: Seq<char>| has_view(s.insert(p, x), y) <==> (has_view(s, y) || y == x@),
{
    let r = s.insert(p, x);
    assert forall|y: Seq<char>| has_view(r, y) <==> (has_view(s, y) || y == x@) by {
        if has_view(r, y) {
            let q = choose|q: int| 0 <= q < r.len() && r[q]@ == y;
            if q < p {
                assert(s[q]@ == y);
            } else if q > p {
                assert(s[q - 1]@ == y);
            }
        }
        if has_view(s, y) {
            let q = choose|q: int| 0 <= q < s.len() && s[q]@ == y;
            if q < p {
                assert(r[q]@ == y);
            } else {
                assert(r[q + 1]@ == y);
            }
        }
        if y == x@ {
            assert(r[p]@ == y);
        }
    }
}

/// The ids of `input`, sorted strictly ascending.
pub fn sorted_ids(input: &Vec<String>) -> (out: Vec<String>)
    requires
        unique_views(input@),
    ensures
        sorted_strictly(out@),
        unique_views(out@),
        out@.len() == input@.len(),
        forall|x: Seq<char>| has_view(out@, x) <==> has_view(input@, x),
{
    let mut out: Vec<String> = Vec::new();
    let mut i: usize = 0;
    while i < input.len()
        invariant
            i <= input.len(),
            unique_views(input@),
            sorted_strictly(out@),
            out@.len() == i,
            forall|x: Seq<char>| has_view(out@, x) <==> has_view(input@.subrange(0, i as int), x),
        decreases input.len() - i,
    {
        let x = &input[i];
        proof {
            if has_view(out@, x@) {
                let j = choose|j: int| 0 <= j < i && input@.subrange(0, i as int)[j]@ == x@;
                assert(input@[j]@ == input@[i as int]@);
            }
        }
        let p = insertion_point(&out, x);
        let ghost old_out = out@;
        let y = x.clone();
        out.insert(p, y);
        proof {
            lemma_insert_sorted(old_out, p as int, y);
            lemma_insert_members(old_out, p as int, y);
            let pre = input@.subrange(0, i as int);
            let pre1 = input@.subrange(0, i + 1);
            assert(pre1 =~= pre.push(input@[i as int]));
            assert forall|z: Seq<char>| has_view(pre1, z) <==> (has_view(pre, z) || z == x@) by {
                if has_view(pre1, z) {
                    let q = choose|q: int| 0 <= q < pre1.len() && pre1[q]@ == z;
                    if q < i {
                        assert(pre[q]@ == z);
                    }
                }
                if has_view(pre, z) {
                    let q = choose|q: int| 0 <= q < pre.len() && pre[q]@ == z;
                    assert(pre1[q]@ == z);
                }
                if z == x@ {
                    assert(pre1[i as int]@ == z);
                }
            }
            assert forall|z: Seq<char>| has_view(out@, z) <==> has_view(pre1, z) by {
                assert(has_view(out@, z) <==> (has_view(old_out, z) || z == y@));
                assert(has_view(old_out, z) <==> has_view(pre, z));
                assert(has_view(pre1, z) <==> (has_view(pre, z) || z == x@));
            }
        }
        i = i + 1;
    }
    proof {
        assert(input@.subrange(0, i as int) =~= input@);
        assert forall|a: int, b: int| 0 <= a < b < out@.len() implies out@[a]@ != out@[b]@ by {
            lemma_lex_lt_irreflexive(out@[a]@);
        }
    }
    out
}

/// No id sorts before itself.
pub proof fn lemma_lex_lt_irreflexive(a: Seq<char>)
    ensures
        !lex_lt(a, a),
{
}

} // verus!
