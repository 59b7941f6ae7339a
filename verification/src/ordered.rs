//! The order of strings (`Ord for String`: lexicographic by character code
//! point, which is also the order of their UTF-8 bytes), and vectors of
//! strings kept sorted without repeats.
use vstd::prelude::*;

use crate::text;

verus! {

/// `a` comes strictly before `b` in lexicographic code-point order.
pub open spec fn lex_lt(a: Seq<char>, b: Seq<char>) -> bool
    decreases a.len(),
{
    if a.len() == 0 {
        b.len() > 0
    } else if b.len() == 0 {
        false
    } else if a[0] != b[0] {
        (a[0] as u32) < (b[0] as u32)
    } else {
        lex_lt(a.drop_first(), b.drop_first())
    }
}

/// Every element comes strictly before each later one: sorted, no repeats.
pub open spec fn strictly_sorted(s: Seq<Seq<char>>) -> bool {
    forall|i: int, j: int| 0 <= i < j < s.len() ==> lex_lt(#[trigger] s[i], #[trigger] s[j])
}

/// `lex_lt` is irreflexive.
pub proof fn lemma_lex_irreflexive(a: Seq<char>)
    ensures
        !lex_lt(a, a),
    decreases a.len(),
{
    if a.len() > 0 {
        lemma_lex_irreflexive(a.drop_first());
    }
}

/// `lex_lt` is transitive.
pub proof fn lemma_lex_transitive(a: Seq<char>, b: Seq<char>, c: Seq<char>)
    requires
        lex_lt(a, b),
        lex_lt(b, c),
    ensures
        lex_lt(a, c),
    decreases a.len(),
{
    if a.len() > 0 && b.len() > 0 && c.len() > 0 {
        if a[0] == b[0] && b[0] == c[0] {
            lemma_lex_transitive(a.drop_first(), b.drop_first(), c.drop_first());
        }
    }
}

/// Of two different sequences, one comes before the other.
pub proof fn lemma_lex_total(a: Seq<char>, b: Seq<char>)
    requires
        a != b,
    ensures
        lex_lt(a, b) || lex_lt(b, a),
    decreases a.len(),
{
    if a.len() > 0 && b.len() > 0 && a[0] != b[0] {
        lemma_char_code_injective(a[0], b[0]);
    } else if a.len() > 0 && b.len() > 0 && a[0] == b[0] {
        if a.drop_first() == b.drop_first() {
            assert(a =~= seq![a[0]] + a.drop_first());
            assert(b =~= seq![b[0]] + b.drop_first());
        }
        lemma_lex_total(a.drop_first(), b.drop_first());
    } else if a.len() == 0 && b.len() == 0 {
        assert(a =~= b);
    }
}

/// Different characters have different codes.
pub proof fn lemma_char_code_injective(a: char, b: char)
    requires
        a != b,
    ensures
        (a as u32) != (b as u32),
{
    vstd::utf8::char_u32_cast(a, a as u32);
    vstd::utf8::char_u32_cast(b, b as u32);
}

/// Three-way comparison: `-1` when `a` comes first, `0` when equal, `1`
/// when `b` comes first.
pub fn compare_chars(a: &Vec<char>, b: &Vec<char>) -> (r: i8)
    ensures
        r == -1 <==> lex_lt(a@, b@),
        r == 0 <==> a@ == b@,
        r == 1 <==> lex_lt(b@, a@),
        r == -1 || r == 0 || r == 1,
{
    let mut i: usize = 0;
    assert(a@.skip(0) =~= a@);
    assert(b@.skip(0) =~= b@);
    while i < a.len() && i < b.len() && a[i] == b[i]
        invariant
            i <= a.len(),
            i <= b.len(),
            a@.take(i as int) =~= b@.take(i as int),
            lex_lt(a@, b@) == lex_lt(a@.skip(i as int), b@.skip(i as int)),
            lex_lt(b@, a@) == lex_lt(b@.skip(i as int), a@.skip(i as int)),
        decreases a.len() - i,
    {
        assert(a@.skip(i as int).drop_first() =~= a@.skip(i + 1));
        assert(b@.skip(i as int).drop_first() =~= b@.skip(i + 1));
        assert(a@.take(i + 1) =~= a@.take(i as int).push(a@[i as int]));
        assert(b@.take(i + 1) =~= b@.take(i as int).push(b@[i as int]));
        i = i + 1;
    }
    if i == a.len() && i == b.len() {
        assert(a@ =~= a@.take(i as int));
        assert(b@ =~= b@.take(i as int));
        proof {
            lemma_lex_irreflexive(a@);
        }
        return 0;
    }
    proof {
        if a@ == b@ {
            assert(a@.len() == b@.len());
        }
    }
    if i == a.len() {
        assert(a@.skip(i as int).len() == 0);
        return -1;
    }
    if i == b.len() {
        assert(b@.skip(i as int).len() == 0);
        return 1;
    }
    assert(a@.skip(i as int)[0] == a@[i as int]);
    assert(b@.skip(i as int)[0] == b@[i as int]);
    proof {
        lemma_char_code_injective(a@[i as int], b@[i as int]);
    }
    if (a[i] as u32) < (b[i] as u32) {
        -1
    } else {
        1
    }
}

/// Where `k` stands among sorted keys: its index if present, otherwise the
/// index before which it would be inserted.
pub fn locate(keys: &Vec<String>, k: &Vec<char>) -> (r: (usize, bool))
    requires
        strictly_sorted(text::views(keys@)),
    ensures
        r.0 <= keys.len(),
        r.1 ==> r.0 < keys.len() && keys@[r.0 as int]@ == k@,
        !r.1 ==> (forall|j: int| 0 <= j < r.0 ==> lex_lt(#[trigger] keys@[j]@, k@)) && (forall|
            j: int,
        |
            r.0 <= j < keys.len() ==> lex_lt(k@, #[trigger] keys@[j]@)),
{
    let mut i: usize = 0;
    while i < keys.len()
        invariant
            i <= keys.len(),
            strictly_sorted(text::views(keys@)),
            forall|j: int| 0 <= j < i ==> lex_lt(#[trigger] keys@[j]@, k@),
        decreases keys.len() - i,
    {
        let kc = text::chars_of(keys[i].as_str());
        let c = compare_chars(&kc, k);
        if c == 0 {
            return (i, true);
        }
        if c == 1 {
            proof {
                assert forall|j: int| i <= j < keys.len() implies lex_lt(k@, #[trigger] keys@[j]@) by {
                    if j > i {
                        assert(text::views(keys@)[i as int] == keys@[i as int]@);
                        assert(text::views(keys@)[j] == keys@[j]@);
                        lemma_lex_transitive(k@, keys@[i as int]@, keys@[j]@);
                    }
                }
            }
            return (i, false);
        }
        i = i + 1;
    }
    (i, false)
}

/// Inserting `k` at the place `locate` found keeps the keys strictly sorted.
pub proof fn lemma_insert_keeps_sorted(s: Seq<Seq<char>>, i: int, k: Seq<char>)
    requires
        strictly_sorted(s),
        0 <= i <= s.len(),
        forall|j: int| 0 <= j < i ==> lex_lt(#[trigger] s[j], k),
        forall|j: int| i <= j < s.len() ==> lex_lt(k, #[trigger] s[j]),
    ensures
        strictly_sorted(s.insert(i, k)),
{
    let t = s.insert(i, k);
    assert forall|a: int, b: int| 0 <= a < b < t.len() implies lex_lt(#[trigger] t[a], #[trigger] t[b]) by {
        if a < i && b < i {
        } else if a < i && b == i {
        } else if a < i {
            assert(t[b] == s[b - 1]);
        } else if a == i {
            assert(t[b] == s[b - 1]);
        } else {
            assert(t[a] == s[a - 1] && t[b] == s[b - 1]);
        }
    }
}

/// Adds `name` to strictly sorted `names` unless it is already there.
pub fn insert_sorted_unique(names: &mut Vec<String>, name: String)
    requires
        strictly_sorted(text::views(old(names)@)),
    ensures
        strictly_sorted(text::views(final(names)@)),
        text::views(final(names)@).to_set() == text::views(old(names)@).to_set().insert(name@),
{
    let k = text::chars_of(name.as_str());
    let (i, found) = locate(names, &k);
    let ghost s = text::views(names@);
    if found {
        assert(s.to_set().insert(name@) =~= s.to_set()) by {
            assert(s[i as int] == name@);
        }
        return;
    }
    proof {
        assert forall|j: int| 0 <= j < i implies lex_lt(#[trigger] s[j], k@) by {
            assert(s[j] == names@[j]@);
        }
        assert forall|j: int| i <= j < s.len() implies lex_lt(k@, #[trigger] s[j]) by {
            assert(s[j] == names@[j]@);
        }
        lemma_insert_keeps_sorted(s, i as int, name@);
    }
    names.insert(i, name);
    proof {
        assert(text::views(names@) =~= s.insert(i as int, k@));
        assert(s.insert(i as int, k@).to_set() =~= s.to_set().insert(k@)) by {
            let t = s.insert(i as int, k@);
            assert forall|x| t.to_set().contains(x) implies s.to_set().insert(k@).contains(x) by {
                let w = choose|w: int| 0 <= w < t.len() && t[w] == x;
                if w < i {
                    assert(s[w] == x);
                } else if w > i {
                    assert(s[w - 1] == x);
                }
            }
            assert forall|x| s.to_set().insert(k@).contains(x) implies t.to_set().contains(x) by {
                if x == k@ {
                    assert(t[i as int] == x);
                } else {
                    let w = choose|w: int| 0 <= w < s.len() && s[w] == x;
                    if w < i {
                        assert(t[w] == x);
                    } else {
                        assert(t[w + 1] == x);
                    }
                }
            }
        }
    }
}


// ───────────────────────────── stable sorting ─────────────────────────────

/// Index `x` comes before index `y` when its key is smaller by `lt`, or the
/// keys are equal and `x` is the smaller index.
pub open spec fn in_order<K>(keys: Seq<K>, lt: spec_fn(K, K) -> bool, x: usize, y: usize) -> bool {
    lt(keys[x as int], keys[y as int]) || (keys[x as int] == keys[y as int] && x < y)
}

/// `perm` lists indices of `keys` in the order a stable sort by key leaves
/// them: each index once, keys ascending, equal keys in their first order.
pub open spec fn stable_order<K>(keys: Seq<K>, lt: spec_fn(K, K) -> bool, perm: Seq<usize>) -> bool {
    &&& perm.len() == keys.len()
    &&& forall|t: int| 0 <= t < perm.len() ==> #[trigger] perm[t] < keys.len()
    &&& forall|a: int, b: int|
        #![trigger perm[a], perm[b]]
        0 <= a < b < perm.len() ==> in_order(keys, lt, perm[a], perm[b])
}

/// `items` taken in the order `perm`.
pub open spec fn arranged<T>(items: Seq<T>, perm: Seq<usize>) -> Seq<T> {
    Seq::new(perm.len(), |t: int| items[perm[t] as int])
}

/// `<` on `u64`.
pub open spec fn u64_lt() -> spec_fn(u64, u64) -> bool {
    |a: u64, b: u64| a < b
}

/// `<` on strings, character by character.
pub open spec fn text_lt() -> spec_fn(Seq<char>, Seq<char>) -> bool {
    |a: Seq<char>, b: Seq<char>| lex_lt(a, b)
}

/// The views of a vector of character vectors.
pub open spec fn char_views(v: Seq<Vec<char>>) -> Seq<Seq<char>> {
    v.map_values(|c: Vec<char>| c@)
}

/// The order in which a stable sort by these ranks leaves the indices.
pub fn stable_order_by_rank(ranks: &Vec<u64>) -> (perm: Vec<usize>)
    ensures
        stable_order(ranks@, u64_lt(), perm@),
{
    let n = ranks.len();
    let ghost keys = ranks@;
    let ghost lt = u64_lt();
    let mut out: Vec<usize> = Vec::new();
    let mut i: usize = 0;
    while i < n
        invariant
            i <= n == keys.len(),
            keys == ranks@,
            lt == u64_lt(),
            out@.len() == i,
            forall|t: int| 0 <= t < i ==> #[trigger] out@[t] < i,
            forall|a: int, b: int|
                #![trigger out@[a], out@[b]]
                0 <= a < b < i ==> in_order(keys, lt, out@[a], out@[b]),
        decreases n - i,
    {
        let p = ranks[i];
        let mut j: usize = 0;
        while j < out.len() && ranks[out[j]] <= p
            invariant
                j <= out@.len() == i < n == keys.len(),
                keys == ranks@,
                forall|t: int| 0 <= t < i ==> #[trigger] out@[t] < i,
                forall|t: int| 0 <= t < j ==> keys[#[trigger] out@[t] as int] <= p,
            decreases i - j,
        {
            j = j + 1;
        }
        proof {
            assert forall|t: int| j <= t < i implies keys[#[trigger] out@[t] as int] > p by {
                if t > j {
                    assert(in_order(keys, lt, out@[j as int], out@[t]));
                }
            }
        }
        let ghost old = out@;
        out.insert(j, i);
        proof {
            assert forall|t: int| 0 <= t < i + 1 implies #[trigger] out@[t] < i + 1 by {
                if t < j {
                    assert(out@[t] == old[t]);
                } else if t > j {
                    assert(out@[t] == old[t - 1]);
                }
            }
            assert forall|a: int, b: int|
                #![trigger out@[a], out@[b]]
                0 <= a < b < i + 1 implies in_order(keys, lt, out@[a], out@[b]) by {
                if a < j && b < j {
                    assert(in_order(keys, lt, old[a], old[b]));
                } else if a < j && b == j {
                    assert(keys[old[a] as int] <= p);
                } else if a < j && b > j {
                    assert(in_order(keys, lt, old[a], old[b - 1]));
                } else if a == j {
                    assert(keys[old[b - 1] as int] > p);
                } else {
                    assert(in_order(keys, lt, old[a - 1], old[b - 1]));
                }
            }
        }
        i = i + 1;
    }
    out
}

/// The order in which a stable sort by these keys (compared character by
/// character) leaves the indices.
pub fn stable_order_by_text(keys: &Vec<Vec<char>>) -> (perm: Vec<usize>)
    ensures
        stable_order(char_views(keys@), text_lt(), perm@),
{
    let n = keys.len();
    let ghost ks = char_views(keys@);
    let ghost lt = text_lt();
    let mut out: Vec<usize> = Vec::new();
    let mut i: usize = 0;
    while i < n
        invariant
            i <= n == ks.len() == keys@.len(),
            ks == char_views(keys@),
            lt == text_lt(),
            out@.len() == i,
            forall|t: int| 0 <= t < i ==> #[trigger] out@[t] < i,
            forall|a: int, b: int|
                #![trigger out@[a], out@[b]]
                0 <= a < b < i ==> in_order(ks, lt, out@[a], out@[b]),
        decreases n - i,
    {
        let p = &keys[i];
        let mut j: usize = 0;
        while j < out.len() && compare_chars(&keys[out[j]], p) <= 0
            invariant
                j <= out@.len() == i < n == ks.len() == keys@.len(),
                ks == char_views(keys@),
                p@ == ks[i as int],
                forall|t: int| 0 <= t < i ==> #[trigger] out@[t] < i,
                forall|t: int| 0 <= t < j ==> !lex_lt(ks[i as int], ks[#[trigger] out@[t] as int]),
            decreases i - j,
        {
            j = j + 1;
        }
        proof {
            assert forall|t: int| j <= t < i implies lex_lt(
                ks[i as int],
                ks[#[trigger] out@[t] as int],
            ) by {
                if t > j {
                    assert(in_order(ks, lt, out@[j as int], out@[t]));
                    if ks[out@[j as int] as int] != ks[out@[t] as int] {
                        lemma_lex_transitive(
                            ks[i as int],
                            ks[out@[j as int] as int],
                            ks[out@[t] as int],
                        );
                    }
                }
            }
        }
        let ghost old = out@;
        out.insert(j, i);
        proof {
            assert forall|t: int| 0 <= t < i + 1 implies #[trigger] out@[t] < i + 1 by {
                if t < j {
                    assert(out@[t] == old[t]);
                } else if t > j {
                    assert(out@[t] == old[t - 1]);
                }
            }
            assert forall|a: int, b: int|
                #![trigger out@[a], out@[b]]
                0 <= a < b < i + 1 implies in_order(ks, lt, out@[a], out@[b]) by {
                if a < j && b < j {
                    assert(in_order(ks, lt, old[a], old[b]));
                } else if a < j && b == j {
                    assert(!lex_lt(ks[i as int], ks[old[a] as int]));
                    if ks[old[a] as int] != ks[i as int] {
                        lemma_lex_total(ks[old[a] as int], ks[i as int]);
                    }
                } else if a < j && b > j {
                    assert(in_order(ks, lt, old[a], old[b - 1]));
                } else if a == j {
                    assert(lex_lt(ks[i as int], ks[old[b - 1] as int]));
                } else {
                    assert(in_order(ks, lt, old[a - 1], old[b - 1]));
                }
            }
        }
        i = i + 1;
    }
    out
}

} // verus!
