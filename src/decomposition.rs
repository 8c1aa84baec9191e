//! How the energy requests relate to the energy of the whole system.
//!
//! A pair potential is modelled as a function `e(x, y)` of two particle
//! indices; a request's energy is `e` summed over its pairs.
use vstd::prelude::*;

use crate::energy::{
    lex_pairs, partner_pairs, row_pairs, swap_pairs, swap_partner_pairs, unordered_pairs,
    EnergyRequest,
};

verus! {

/// Sum of `e` over `pairs`.
pub open spec fn pair_sum(pairs: Seq<(usize, usize)>, e: spec_fn(int, int) -> int) -> int
    decreases pairs.len(),
{
    if pairs.len() == 0 {
        0
    } else {
        pair_sum(pairs.drop_last(), e) + e(pairs.last().0 as int, pairs.last().1 as int)
    }
}

/// `e` gives a pair the same value in either order.
pub open spec fn symmetric(e: spec_fn(int, int) -> int) -> bool {
    forall|x: int, y: int| #[trigger] e(x, y) == e(y, x)
}

/// `before` and `after` give the same value to every pair that involves
/// neither `i` nor `j`.
pub open spec fn agree_away_from(
    before: spec_fn(int, int) -> int,
    after: spec_fn(int, int) -> int,
    i: int,
    j: int,
) -> bool {
    forall|x: int, y: int|
        x != i && y != i && x != j && y != j ==> #[trigger] before(x, y) == after(x, y)
}

proof fn lemma_pair_sum_push(s: Seq<(usize, usize)>, p: (usize, usize), e: spec_fn(int, int) -> int)
    ensures
        pair_sum(s.push(p), e) == pair_sum(s, e) + e(p.0 as int, p.1 as int),
{
    assert(s.push(p).drop_last() =~= s);
}

proof fn lemma_pair_sum_concat(
    s1: Seq<(usize, usize)>,
    s2: Seq<(usize, usize)>,
    e: spec_fn(int, int) -> int,
)
    ensures
        pair_sum(s1 + s2, e) == pair_sum(s1, e) + pair_sum(s2, e),
    decreases s2.len(),
{
    if s2.len() == 0 {
        assert(s1 + s2 =~= s1);
    } else {
        lemma_pair_sum_concat(s1, s2.drop_last(), e);
        assert((s1 + s2).drop_last() =~= s1 + s2.drop_last());
    }
}

/// A sum over pairs is linear in the pair function.
proof fn lemma_pair_sum_split(
    s: Seq<(usize, usize)>,
    e: spec_fn(int, int) -> int,
    e1: spec_fn(int, int) -> int,
    e2: spec_fn(int, int) -> int,
)
    requires
        forall|x: int, y: int| #[trigger] e(x, y) == e1(x, y) + e2(x, y),
    ensures
        pair_sum(s, e) == pair_sum(s, e1) + pair_sum(s, e2),
    decreases s.len(),
{
    if s.len() > 0 {
        lemma_pair_sum_split(s.drop_last(), e, e1, e2);
        let p = s.last();
        assert(e(p.0 as int, p.1 as int) == e1(p.0 as int, p.1 as int) + e2(p.0 as int, p.1 as int));
    }
}

/// A row of pairs without `i` sums to its one entry that meets `i`, if any.
proof fn lemma_row_away(x: int, end: int, i: int, d: spec_fn(int, int) -> int)
    requires
        0 <= x,
        end <= usize::MAX + 1,
        x != i,
        forall|a: int, b: int| a != i && b != i ==> #[trigger] d(a, b) == 0,
    ensures
        pair_sum(row_pairs(x, end), d) == (if x < i < end {
            d(x, i)
        } else {
            0
        }),
    decreases end - x,
{
    if end > x + 1 {
        lemma_row_away(x, end - 1, i, d);
        lemma_pair_sum_push(row_pairs(x, end - 1), (x as usize, (end - 1) as usize), d);
    }
}

/// The rows before `i` sum to the pairs of the first `rows` partners of `i`.
proof fn lemma_rows_before(rows: int, n: int, i: int, d: spec_fn(int, int) -> int)
    requires
        0 <= rows <= i < n <= usize::MAX,
        forall|a: int, b: int| a != i && b != i ==> #[trigger] d(a, b) == 0,
    ensures
        pair_sum(lex_pairs(rows, n), d) == pair_sum(partner_pairs(i, rows), d),
    decreases rows,
{
    if rows > 0 {
        lemma_rows_before(rows - 1, n, i, d);
        lemma_pair_sum_concat(lex_pairs(rows - 1, n), row_pairs(rows - 1, n), d);
        lemma_row_away(rows - 1, n, i, d);
        lemma_pair_sum_push(partner_pairs(i, rows - 1), ((rows - 1) as usize, i as usize), d);
    }
}

/// Past row `i`, the rows add nothing.
proof fn lemma_rows_after(rows: int, n: int, i: int, d: spec_fn(int, int) -> int)
    requires
        0 <= i < rows <= n <= usize::MAX,
        forall|a: int, b: int| a != i && b != i ==> #[trigger] d(a, b) == 0,
    ensures
        pair_sum(lex_pairs(rows, n), d) == pair_sum(partner_pairs(i, i), d) + pair_sum(
            row_pairs(i, n),
            d,
        ),
    decreases rows,
{
    lemma_pair_sum_concat(lex_pairs(rows - 1, n), row_pairs(rows - 1, n), d);
    if rows == i + 1 {
        lemma_rows_before(i, n, i, d);
    } else {
        lemma_rows_after(rows - 1, n, i, d);
        lemma_row_away(rows - 1, n, i, d);
    }
}

/// The partners of `i` above it sum as row `i` does.
proof fn lemma_partners_above(i: int, m: int, d: spec_fn(int, int) -> int)
    requires
        0 <= i < m <= usize::MAX,
        symmetric(d),
    ensures
        pair_sum(partner_pairs(i, m), d) == pair_sum(partner_pairs(i, i), d) + pair_sum(
            row_pairs(i, m),
            d,
        ),
    decreases m,
{
    if m > i + 1 {
        lemma_partners_above(i, m - 1, d);
        lemma_pair_sum_push(partner_pairs(i, m - 1), ((m - 1) as usize, i as usize), d);
        lemma_pair_sum_push(row_pairs(i, m - 1), (i as usize, (m - 1) as usize), d);
        assert(d(m - 1, i) == d(i, m - 1));
    }
}

/// For a symmetric pair function that vanishes on pairs without `i`, the
/// whole system sums as the partners of `i` do.
proof fn lemma_system_is_partners(n: int, i: int, d: spec_fn(int, int) -> int)
    requires
        0 <= i < n <= usize::MAX,
        symmetric(d),
        forall|a: int, b: int| a != i && b != i ==> #[trigger] d(a, b) == 0,
    ensures
        pair_sum(unordered_pairs(n as nat), d) == pair_sum(partner_pairs(i, n), d),
{
    lemma_rows_after(n, n, i, d);
    lemma_partners_above(i, n, d);
}

/// When only particle `i` changes, the change of the whole-system energy
/// equals the change of the single-particle energy of `i`: every pair that
/// can change involves `i`, and the single-particle request holds each of
/// those once.
pub proof fn lemma_particle_request_tracks_system(
    n: usize,
    i: usize,
    before: spec_fn(int, int) -> int,
    after: spec_fn(int, int) -> int,
)
    requires
        i < n,
        symmetric(before),
        symmetric(after),
        agree_away_from(before, after, i as int, i as int),
    ensures
        pair_sum(EnergyRequest::System.pairs(n as nat), after) - pair_sum(
            EnergyRequest::System.pairs(n as nat),
            before,
        ) == pair_sum(EnergyRequest::Particle(i).pairs(n as nat), after) - pair_sum(
            EnergyRequest::Particle(i).pairs(n as nat),
            before,
        ),
{
    let d = |x: int, y: int| after(x, y) - before(x, y);
    let system = unordered_pairs(n as nat);
    let partners = partner_pairs(i as int, n as int);
    assert forall|x: int, y: int| #[trigger] d(x, y) == d(y, x) by {
        assert(after(x, y) == after(y, x));
        assert(before(x, y) == before(y, x));
    }
    assert forall|a: int, b: int| a != i && b != i implies #[trigger] d(a, b) == 0 by {
        assert(before(a, b) == after(a, b));
    }
    lemma_system_is_partners(n as int, i as int, d);
    lemma_pair_sum_split(system, after, d, before);
    lemma_pair_sum_split(partners, after, d, before);
}

/// The partners of `i` under `di` and of `j` under `dj` sum as the swap
/// partners do under `d`, plus the pair `(j, i)` once `j` is reached.
proof fn lemma_swap_partners(
    i: int,
    j: int,
    m: int,
    d: spec_fn(int, int) -> int,
    di: spec_fn(int, int) -> int,
    dj: spec_fn(int, int) -> int,
)
    requires
        0 <= i <= usize::MAX,
        0 <= j <= usize::MAX,
        i != j,
        m <= usize::MAX + 1,
        forall|x: int, y: int|
            #[trigger] di(x, y) == (if x == i || y == i {
                d(x, y)
            } else {
                0
            }),
        forall|x: int, y: int|
            #[trigger] dj(x, y) == (if x == i || y == i {
                0
            } else {
                d(x, y)
            }),
    ensures
        pair_sum(partner_pairs(i, m), di) + pair_sum(partner_pairs(j, m), dj) == pair_sum(
            swap_partner_pairs(i, j, m),
            d,
        ) + (if 0 <= j < m {
            d(j, i)
        } else {
            0
        }),
    decreases m,
{
    if m > 0 {
        let k = m - 1;
        lemma_swap_partners(i, j, k, d, di, dj);
        if k == i {
            lemma_pair_sum_push(partner_pairs(j, k), (k as usize, j as usize), dj);
            assert(dj(k, j) == 0);
        } else if k == j {
            lemma_pair_sum_push(partner_pairs(i, k), (k as usize, i as usize), di);
            assert(di(k, i) == d(k, i));
        } else {
            lemma_pair_sum_push(partner_pairs(i, k), (k as usize, i as usize), di);
            lemma_pair_sum_push(partner_pairs(j, k), (k as usize, j as usize), dj);
            let s = swap_partner_pairs(i, j, k);
            lemma_pair_sum_push(s, (k as usize, i as usize), d);
            lemma_pair_sum_push(s.push((k as usize, i as usize)), (k as usize, j as usize), d);
            assert(di(k, i) == d(k, i));
            assert(dj(k, j) == d(k, j));
        }
    }
}

/// When only the charges of particles `i` and `j` change, the change of the
/// whole-system energy equals the change of the swap energy of `i` and `j`:
/// every pair that can change involves `i` or `j`, and the swap request holds
/// each of those once.
pub proof fn lemma_swap_request_tracks_system(
    n: usize,
    i: usize,
    j: usize,
    before: spec_fn(int, int) -> int,
    after: spec_fn(int, int) -> int,
)
    requires
        i < n,
        j < n,
        i != j,
        symmetric(before),
        symmetric(after),
        agree_away_from(before, after, i as int, j as int),
    ensures
        pair_sum(EnergyRequest::System.pairs(n as nat), after) - pair_sum(
            EnergyRequest::System.pairs(n as nat),
            before,
        ) == pair_sum(EnergyRequest::Swap(i, j).pairs(n as nat), after) - pair_sum(
            EnergyRequest::Swap(i, j).pairs(n as nat),
            before,
        ),
{
    let d = |x: int, y: int| after(x, y) - before(x, y);
    let di = |x: int, y: int|
        if x == i || y == i {
            d(x, y)
        } else {
            0
        };
    let dj = |x: int, y: int|
        if x == i || y == i {
            0
        } else {
            d(x, y)
        };
    let system = unordered_pairs(n as nat);
    let swap = swap_pairs(i as int, j as int, n as int);
    assert forall|x: int, y: int| #[trigger] d(x, y) == d(y, x) by {
        assert(after(x, y) == after(y, x));
        assert(before(x, y) == before(y, x));
    }
    assert forall|x: int, y: int| #[trigger] di(x, y) == di(y, x) by {
        assert(d(x, y) == d(y, x));
    }
    assert forall|x: int, y: int| #[trigger] dj(x, y) == dj(y, x) by {
        assert(d(x, y) == d(y, x));
    }
    assert forall|a: int, b: int| a != i && b != i implies #[trigger] di(a, b) == 0 by {}
    assert forall|a: int, b: int| a != j && b != j implies #[trigger] dj(a, b) == 0 by {
        if a != i && b != i {
            assert(before(a, b) == after(a, b));
        }
    }
    lemma_system_is_partners(n as int, i as int, di);
    lemma_system_is_partners(n as int, j as int, dj);
    lemma_pair_sum_split(system, d, di, dj);
    lemma_swap_partners(i as int, j as int, n as int, d, di, dj);
    lemma_pair_sum_concat(seq![(i, j)], swap_partner_pairs(i as int, j as int, n as int), d);
    lemma_pair_sum_push(Seq::empty(), (i, j), d);
    assert(seq![(i, j)] =~= Seq::<(usize, usize)>::empty().push((i, j)));
    assert(d(j as int, i as int) == d(i as int, j as int));
    lemma_pair_sum_split(system, after, d, before);
    lemma_pair_sum_split(swap, after, d, before);
}

proof fn lemma_row_members(x: int, end: int)
    requires
        0 <= x,
        end <= usize::MAX + 1,
    ensures
        row_pairs(x, end).no_duplicates(),
        forall|p: (usize, usize)|
            row_pairs(x, end).contains(p) <==> p.0 == x && x < p.1 < end,
    decreases end - x,
{
    if end > x + 1 {
        let s = row_pairs(x, end - 1);
        let q = (x as usize, (end - 1) as usize);
        lemma_row_members(x, end - 1);
        assert forall|p: (usize, usize)| s.push(q).contains(p) <==> p.0 == x && x < p.1 < end by {
            if p.0 == x && x < p.1 < end && p != q {
                assert(s.contains(p));
                let k = choose|k: int| 0 <= k < s.len() && s[k] == p;
                assert(s.push(q)[k] == p);
            }
            if p == q {
                assert(s.push(q)[s.len() as int] == p);
            }
            if s.push(q).contains(p) {
                let k = choose|k: int| 0 <= k < s.len() + 1 && s.push(q)[k] == p;
                if k < s.len() {
                    assert(s[k] == p);
                    assert(s.contains(p));
                }
            }
        }
        assert forall|a: int, b: int|
            0 <= a < s.len() + 1 && 0 <= b < s.len() + 1 && a != b implies s.push(q)[a] != s.push(
                q,
            )[b] by {
            if a < s.len() && b == s.len() {
                assert(s.contains(s[a]));
            }
            if b < s.len() && a == s.len() {
                assert(s.contains(s[b]));
            }
        }
    }
}

proof fn lemma_lex_members(rows: int, n: int)
    requires
        0 <= rows <= n <= usize::MAX,
    ensures
        lex_pairs(rows, n).no_duplicates(),
        forall|p: (usize, usize)|
            lex_pairs(rows, n).contains(p) <==> p.0 < rows && p.0 < p.1 < n,
    decreases rows,
{
    if rows > 0 {
        let s1 = lex_pairs(rows - 1, n);
        let s2 = row_pairs(rows - 1, n);
        lemma_lex_members(rows - 1, n);
        lemma_row_members(rows - 1, n);
        assert forall|p: (usize, usize)|
            (s1 + s2).contains(p) <==> p.0 < rows && p.0 < p.1 < n by {
            if s1.contains(p) {
                let k = choose|k: int| 0 <= k < s1.len() && s1[k] == p;
                assert((s1 + s2)[k] == p);
            }
            if s2.contains(p) {
                let k = choose|k: int| 0 <= k < s2.len() && s2[k] == p;
                assert((s1 + s2)[s1.len() + k] == p);
            }
            if (s1 + s2).contains(p) {
                let k = choose|k: int| 0 <= k < s1.len() + s2.len() && (s1 + s2)[k] == p;
                if k < s1.len() {
                    assert(s1.contains(s1[k]));
                } else {
                    assert(s2.contains(s2[k - s1.len()]));
                }
            }
        }
        assert forall|a: int, b: int|
            0 <= a < s1.len() + s2.len() && 0 <= b < s1.len() + s2.len() && a != b implies (s1
                + s2)[a] != (s1 + s2)[b] by {
            if a < s1.len() {
                assert(s1.contains(s1[a]));
            } else {
                assert(s2.contains(s2[a - s1.len()]));
            }
            if b < s1.len() {
                assert(s1.contains(s1[b]));
            } else {
                assert(s2.contains(s2[b - s1.len()]));
            }
        }
    }
}

/// The whole-system request holds every unordered pair of particles exactly
/// once: each `(x, y)` with `x < y < n`, and nothing else, so its energy is
/// the sum of the pair potential over all unordered pairs.
pub proof fn lemma_system_request_covers_each_pair_once(n: usize)
    ensures
        EnergyRequest::System.pairs(n as nat).no_duplicates(),
        forall|x: usize, y: usize|
            #[trigger] EnergyRequest::System.pairs(n as nat).contains((x, y)) <==> x < y < n,
{
    lemma_lex_members(n as int, n as int);
}

} // verus!
