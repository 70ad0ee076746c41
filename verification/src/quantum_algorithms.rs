//! Shapes shared by the quantum algorithms, the classical side of Shor's
//! factoring (trial division, and the greatest common divisors taken with the
//! period found), and the matching decoder of the surface code, which pairs the
//! syndrome defects on the lattice into correction chains.

use vstd::prelude::*;

verus! {

/// A kind of single-qubit error.
#[derive(Debug, PartialEq, Eq, Structural, Clone, Copy)]
pub enum QuantumError {
    BitFlip,
    PhaseFlip,
    BitPhaseFlip,
}

/// An oracle of the Deutsch-Jozsa algorithm.
#[derive(Debug, PartialEq, Eq, Structural, Clone, Copy)]
pub enum DeutschJozsaOracle {
    /// Always 0.
    Constant0,
    /// Always 1.
    Constant1,
    /// The XOR of the inputs (balanced).
    BalancedXor,
}

/// A variational ansatz: its gates and how many parameters they read.
#[derive(Debug)]
pub struct AnsatzCircuit {
    pub gates: Vec<AnsatzGate>,
    pub num_parameters: usize,
}

/// A gate of an ansatz.
#[derive(Debug, PartialEq, Eq, Structural, Clone, Copy)]
pub enum AnsatzGate {
    /// A Y rotation of a qubit by a parameter: (qubit, parameter).
    RY(usize, usize),
    /// A Z rotation of a qubit by a parameter: (qubit, parameter).
    RZ(usize, usize),
    /// (control, target).
    CNOT(usize, usize),
    /// A Hadamard gate on a qubit.
    H(usize),
}

/// The greatest common divisor, by Euclid's recursion.
pub open spec fn spec_gcd(a: nat, b: nat) -> nat
    decreases b,
{
    if b == 0 {
        a
    } else {
        spec_gcd(b, a % b)
    }
}

/// The greatest common divisor of two numbers (`gcd(a, 0) = a`).
pub fn gcd(a: usize, b: usize) -> (r: usize)
    ensures
        r == spec_gcd(a as nat, b as nat),
    decreases b,
{
    if b == 0 {
        a
    } else {
        gcd(b, a % b)
    }
}

/// The distance between two numbers.
pub open spec fn abs_diff(a: int, b: int) -> int {
    if a >= b {
        a - b
    } else {
        b - a
    }
}

/// The Manhattan distance between two lattice positions.
pub open spec fn manhattan(a: (usize, usize), b: (usize, usize)) -> int {
    abs_diff(a.0 as int, b.0 as int) + abs_diff(a.1 as int, b.1 as int)
}

/// The Manhattan distance between two lattice positions (row and column, taken as
/// signed numbers).
pub fn manhattan_distance(pos1: (usize, usize), pos2: (usize, usize)) -> (r: usize)
    requires
        pos1.0 <= isize::MAX && pos1.1 <= isize::MAX && pos2.0 <= isize::MAX && pos2.1 <= isize::MAX,
        manhattan(pos1, pos2) <= isize::MAX,
    ensures
        r == manhattan(pos1, pos2),
{
    let dr = if pos1.0 >= pos2.0 { pos1.0 - pos2.0 } else { pos2.0 - pos1.0 };
    let dc = if pos1.1 >= pos2.1 { pos1.1 - pos2.1 } else { pos2.1 - pos1.1 };
    dr + dc
}

/// The boundary position closest to a position of a lattice `distance` wide: the
/// top, bottom, left or right edge, preferred in that order on ties.
pub open spec fn boundary_of(pos: (usize, usize), distance: usize) -> (usize, usize) {
    let (i, j) = pos;
    let top = i as int;
    let bottom = distance - 1 - i;
    let left = j as int;
    let right = distance - 1 - j;
    let m1 = if top <= bottom { top } else { bottom };
    let m2 = if m1 <= left { m1 } else { left };
    let m = if m2 <= right { m2 } else { right };
    if m == top {
        (0, j)
    } else if m == bottom {
        ((distance - 1) as usize, j)
    } else if m == left {
        (i, 0)
    } else {
        (i, (distance - 1) as usize)
    }
}

/// The boundary position closest to a position inside the lattice.
pub fn nearest_boundary(pos: (usize, usize), distance: usize) -> (r: (usize, usize))
    requires
        pos.0 < distance,
        pos.1 < distance,
    ensures
        r == boundary_of(pos, distance),
{
    let (i, j) = pos;
    let top = i;
    let bottom = distance - 1 - i;
    let left = j;
    let right = distance - 1 - j;
    let m1 = if top <= bottom { top } else { bottom };
    let m2 = if m1 <= left { m1 } else { left };
    let m = if m2 <= right { m2 } else { right };
    if m == top {
        (0, j)
    } else if m == bottom {
        (distance - 1, j)
    } else if m == left {
        (i, 0)
    } else {
        (i, distance - 1)
    }
}

/// The index sequences the brute-force matcher tries for `n` defects: for each
/// first index below `n` in turn, that index followed by each of the sequences for
/// `n - 1` (repetitions included).
pub open spec fn index_sequences(n: nat) -> Seq<Seq<usize>>
    decreases n, 1nat, 0nat,
{
    if n == 0 {
        seq![Seq::empty()]
    } else {
        prefixed_sequences(n, n)
    }
}

/// The sequences for `n` whose first index is below `k`.
pub open spec fn prefixed_sequences(n: nat, k: nat) -> Seq<Seq<usize>>
    decreases n, 0nat, k,
{
    if n == 0 || k == 0 {
        Seq::empty()
    } else {
        prefixed_sequences(n, (k - 1) as nat) + index_sequences((n - 1) as nat).map_values(
            |p: Seq<usize>| seq![(k - 1) as usize] + p,
        )
    }
}

proof fn lemma_index_sequences(n: nat)
    ensures
        index_sequences(n).len() >= 1,
        forall|s: int| 0 <= s < index_sequences(n).len() ==> (#[trigger] index_sequences(n)[s]).len() == n && forall|t: int|
            0 <= t < n ==> index_sequences(n)[s][t] < n,
    decreases n, 1nat,
{
    if n > 0 {
        lemma_prefixed_sequences(n, n);
    }
}

proof fn lemma_prefixed_sequences(n: nat, k: nat)
    requires
        n > 0,
        k <= n,
    ensures
        k > 0 ==> prefixed_sequences(n, k).len() >= 1,
        forall|s: int| 0 <= s < prefixed_sequences(n, k).len() ==> (#[trigger] prefixed_sequences(n, k)[s]).len() == n && forall|t: int|
            0 <= t < n ==> prefixed_sequences(n, k)[s][t] < n,
    decreases n, 0nat, k,
{
    if k > 0 {
        lemma_prefixed_sequences(n, (k - 1) as nat);
        lemma_index_sequences((n - 1) as nat);
        let prev = prefixed_sequences(n, (k - 1) as nat);
        let sub = index_sequences((n - 1) as nat);
        let mapped = sub.map_values(|p: Seq<usize>| seq![(k - 1) as usize] + p);
        assert(prefixed_sequences(n, k) == prev + mapped);
        assert forall|s: int| 0 <= s < prefixed_sequences(n, k).len() implies (#[trigger] prefixed_sequences(n, k)[s]).len() == n
            && forall|t: int| 0 <= t < n ==> prefixed_sequences(n, k)[s][t] < n by {
            if s >= prev.len() {
                let q = s - prev.len();
                assert(prefixed_sequences(n, k)[s] == seq![(k - 1) as usize] + sub[q]);
                assert(sub[q].len() == n - 1);
                assert forall|t: int| 0 <= t < n implies prefixed_sequences(n, k)[s][t] < n by {
                    if t > 0 {
                        assert(prefixed_sequences(n, k)[s][t] == sub[q][t - 1]);
                    }
                }
            } else {
                assert(prefixed_sequences(n, k)[s] == prev[s]);
            }
        }
    }
}

/// The index sequences the brute-force matcher tries for `n` defects (see
/// `index_sequences`).
pub fn generate_permutations(n: usize) -> (r: Vec<Vec<usize>>)
    ensures
        r@.len() == index_sequences(n as nat).len(),
        forall|s: int| 0 <= s < r@.len() ==> (#[trigger] r@[s])@ == index_sequences(n as nat)[s],
    decreases n,
{
    let mut out: Vec<Vec<usize>> = Vec::new();
    if n == 0 {
        out.push(Vec::new());
        assert(out@[0]@ =~= Seq::<usize>::empty());
        return out;
    }
    let sub = generate_permutations(n - 1);
    let mut i: usize = 0;
    while i < n
        invariant
            0 < n,
            i <= n,
            sub@.len() == index_sequences((n - 1) as nat).len(),
            forall|s: int| 0 <= s < sub@.len() ==> (#[trigger] sub@[s])@ == index_sequences((n - 1) as nat)[s],
            out@.len() == prefixed_sequences(n as nat, i as nat).len(),
            forall|s: int| 0 <= s < out@.len() ==> (#[trigger] out@[s])@ == prefixed_sequences(n as nat, i as nat)[s],
        decreases n - i,
    {
        let ghost before = out@;
        let mut q: usize = 0;
        while q < sub.len()
            invariant
                0 < n,
                i < n,
                sub@.len() == index_sequences((n - 1) as nat).len(),
                forall|s: int| 0 <= s < sub@.len() ==> (#[trigger] sub@[s])@ == index_sequences((n - 1) as nat)[s],
                before.len() == prefixed_sequences(n as nat, i as nat).len(),
                forall|s: int| 0 <= s < before.len() ==> (#[trigger] before[s])@ == prefixed_sequences(n as nat, i as nat)[s],
                q <= sub@.len(),
                out@.len() == before.len() + q,
                forall|s: int| 0 <= s < before.len() ==> #[trigger] out@[s] == before[s],
                forall|s: int| 0 <= s < q ==> (#[trigger] out@[before.len() + s])@ == seq![i] + index_sequences((n - 1) as nat)[s],
            decreases sub@.len() - q,
        {
            let mut v: Vec<usize> = Vec::new();
            v.push(i);
            let mut t: usize = 0;
            while t < sub[q].len()
                invariant
                    q < sub@.len(),
                    t <= sub@[q as int]@.len(),
                    v@ == seq![i] + sub@[q as int]@.take(t as int),
                decreases sub@[q as int]@.len() - t,
            {
                v.push(sub[q][t]);
                t += 1;
                assert(v@ =~= seq![i] + sub@[q as int]@.take(t as int));
            }
            assert(sub@[q as int]@.take(t as int) =~= sub@[q as int]@);
            out.push(v);
            q += 1;
        }
        proof {
            let mapped = index_sequences((n - 1) as nat).map_values(|p: Seq<usize>| seq![i] + p);
            assert(prefixed_sequences(n as nat, (i + 1) as nat) == prefixed_sequences(n as nat, i as nat) + mapped);
            assert forall|s: int| 0 <= s < out@.len() implies (#[trigger] out@[s])@ == prefixed_sequences(n as nat, (i + 1) as nat)[s] by {
                if s >= before.len() {
                    let q2 = s - before.len();
                    assert(out@[before.len() + q2]@ == seq![i] + index_sequences((n - 1) as nat)[q2]);
                } else {
                    assert(out@[s] == before[s]);
                }
            }
        }
        i += 1;
    }
    out
}

/// The defects to match: with a virtual defect at `(distance, distance)` added to
/// an odd number of them.
pub open spec fn with_virtual(defects: Seq<(usize, usize)>, distance: usize) -> Seq<(usize, usize)> {
    if defects.len() % 2 != 0 {
        defects.push((distance, distance))
    } else {
        defects
    }
}

/// The total distance of the first `m` pairs of an index sequence: entries
/// `2i` and `2i + 1` form pair `i`.
pub open spec fn pairing_weight(ds: Seq<(usize, usize)>, p: Seq<usize>, m: nat) -> int
    decreases m,
{
    if m == 0 {
        0
    } else {
        pairing_weight(ds, p, (m - 1) as nat) + manhattan(ds[p[2 * (m - 1)] as int], ds[p[2 * (m - 1) + 1] as int])
    }
}

/// The first place of a least value among the first `k` values.
pub open spec fn first_min(ws: Seq<int>, k: nat) -> int
    decreases k,
{
    if k <= 1 {
        0
    } else {
        let b = first_min(ws, (k - 1) as nat);
        if ws[k - 1] < ws[b] {
            k - 1
        } else {
            b
        }
    }
}

/// The weights of all index sequences the brute-force matcher tries.
pub open spec fn sequence_weights(ds: Seq<(usize, usize)>) -> Seq<int> {
    let ps = index_sequences(ds.len());
    Seq::new(ps.len(), |k: int| pairing_weight(ds, ps[k], ds.len() / 2))
}

/// The chain the brute-force matcher gives: the defects (with the virtual one)
/// in the order of the first index sequence of least total pair distance.
pub open spec fn brute_force_chain(defects: Seq<(usize, usize)>, distance: usize) -> Seq<(usize, usize)> {
    let ds = with_virtual(defects, distance);
    let ps = index_sequences(ds.len());
    let b = ps[first_min(sequence_weights(ds), ps.len())];
    Seq::new(ds.len(), |t: int| ds[b[t] as int])
}

/// Distances between the defects stay small enough to add three of them: every
/// coordinate fits a signed word, and three times any distance does too.
pub open spec fn distances_bounded(ds: Seq<(usize, usize)>) -> bool {
    &&& forall|a: int| 0 <= a < ds.len() ==> (#[trigger] ds[a]).0 <= isize::MAX && ds[a].1 <= isize::MAX
    &&& forall|a: int, b: int| 0 <= a < ds.len() && 0 <= b < ds.len() ==> 3 * manhattan(#[trigger] ds[a], #[trigger] ds[b]) <= isize::MAX
}

proof fn lemma_first_min(ws: Seq<int>, k: nat)
    requires
        1 <= k <= ws.len(),
    ensures
        0 <= first_min(ws, k) < k,
    decreases k,
{
    if k > 1 {
        lemma_first_min(ws, (k - 1) as nat);
    }
}

fn defects_with_virtual(defects: &[(usize, usize)], distance: usize) -> (r: Vec<(usize, usize)>)
    ensures
        r@ == with_virtual(defects@, distance),
{
    let mut ds: Vec<(usize, usize)> = Vec::new();
    let mut c: usize = 0;
    while c < defects.len()
        invariant
            c <= defects@.len(),
            ds@ == defects@.take(c as int),
        decreases defects@.len() - c,
    {
        ds.push(defects[c]);
        c += 1;
        assert(ds@ =~= defects@.take(c as int));
    }
    assert(defects@.take(defects@.len() as int) =~= defects@);
    if ds.len() % 2 != 0 {
        ds.push((distance, distance));
    }
    ds
}

fn sequence_weight(ds: &Vec<(usize, usize)>, p: &Vec<usize>) -> (r: usize)
    requires
        ds@.len() <= 6,
        distances_bounded(ds@),
        p@.len() == ds@.len(),
        forall|t: int| 0 <= t < p@.len() ==> p@[t] < ds@.len(),
    ensures
        r == pairing_weight(ds@, p@, ds@.len() / 2),
        r <= isize::MAX,
{
    let n = ds.len();
    let mut w: usize = 0;
    let mut i: usize = 0;
    while i < n / 2
        invariant
            n == ds@.len(),
            n <= 6,
            distances_bounded(ds@),
            p@.len() == n,
            forall|t: int| 0 <= t < n ==> p@[t] < n,
            i <= n / 2,
            w == pairing_weight(ds@, p@, i as nat),
            w * 3 <= i * isize::MAX,
        decreases n / 2 - i,
    {
        let x = p[2 * i];
        let y = p[2 * i + 1];
        proof {
            assert(3 * manhattan(ds@[x as int], ds@[y as int]) <= isize::MAX);
            assert((0 <= x < ds@.len()) ==> ds@[x as int].0 <= isize::MAX && ds@[x as int].1 <= isize::MAX);
            assert((0 <= y < ds@.len()) ==> ds@[y as int].0 <= isize::MAX && ds@[y as int].1 <= isize::MAX);
        }
        let d = manhattan_distance(ds[x], ds[y]);
        w = w + d;
        i += 1;
    }
    w
}

fn chain_in_order(ds: &Vec<(usize, usize)>, p: &Vec<usize>) -> (r: Vec<(usize, usize)>)
    requires
        p@.len() == ds@.len(),
        forall|t: int| 0 <= t < p@.len() ==> p@[t] < ds@.len(),
    ensures
        r@ == Seq::new(ds@.len(), |u: int| ds@[p@[u] as int]),
{
    let n = ds.len();
    let mut chain: Vec<(usize, usize)> = Vec::new();
    let mut t: usize = 0;
    while t < n
        invariant
            n == ds@.len(),
            p@.len() == n,
            forall|u: int| 0 <= u < n ==> p@[u] < n,
            t <= n,
            chain@ == Seq::new(t as nat, |u: int| ds@[p@[u] as int]),
        decreases n - t,
    {
        chain.push(ds[p[t]]);
        t += 1;
        assert(chain@ =~= Seq::new(t as nat, |u: int| ds@[p@[u] as int]));
    }
    chain
}

/// Matches the defects by trying every index sequence and keeping the first of
/// least total distance; an odd count first gets a virtual defect at the corner.
#[verifier::rlimit(40)]
#[verifier::spinoff_prover]
pub fn brute_force_matching(defects: &[(usize, usize)], distance: usize) -> (r: Vec<(usize, usize)>)
    requires
        defects@.len() <= 6,
        distances_bounded(with_virtual(defects@, distance)),
    ensures
        r@ == brute_force_chain(defects@, distance),
{
    let ds = defects_with_virtual(defects, distance);
    let n = ds.len();
    let perms = generate_permutations(n);
    let ghost ps = index_sequences(n as nat);
    let ghost ws = sequence_weights(ds@);
    proof {
        lemma_index_sequences(n as nat);
    }
    let mut min_weight: usize = usize::MAX;
    let mut best: usize = 0;
    let mut k: usize = 0;
    while k < perms.len()
        invariant
            n == ds@.len(),
            n <= 6,
            distances_bounded(ds@),
            ps == index_sequences(n as nat),
            ws == sequence_weights(ds@),
            perms@.len() == ps.len(),
            forall|s: int| 0 <= s < perms@.len() ==> (#[trigger] perms@[s])@ == ps[s],
            forall|s: int| 0 <= s < ps.len() ==> (#[trigger] ps[s]).len() == n && forall|t: int| 0 <= t < n ==> ps[s][t] < n,
            k <= perms@.len(),
            k == 0 ==> min_weight == usize::MAX,
            k > 0 ==> best == first_min(ws, k as nat) && min_weight == ws[best as int] && best < k,
        decreases perms@.len() - k,
    {
        let w = sequence_weight(&ds, &perms[k]);
        proof {
            assert(ws[k as int] == pairing_weight(ds@, ps[k as int], n as nat / 2));
            if k > 0 {
                lemma_first_min(ws, k as nat);
            }
        }
        if w < min_weight {
            min_weight = w;
            best = k;
        }
        k += 1;
    }
    proof {
        lemma_first_min(ws, perms@.len() as nat);
    }
    chain_in_order(&ds, &perms[best])
}

/// The distance of the `k`-th pair of a matching order.
pub open spec fn pair_dist(ds: Seq<(usize, usize)>, order: Seq<int>, k: int) -> int {
    manhattan(ds[order[2 * k]], ds[order[2 * k + 1]])
}

/// The indices a matching order still holds from its `k`-th pair on.
pub open spec fn rest_of(order: Seq<int>, k: int) -> Seq<int> {
    order.subrange(2 * k, order.len() as int)
}

/// A chain the greedy matcher can give: the defects in some order that lists each
/// once, where each pair is at least as close as any two defects not yet paired
/// before it; an odd defect out is joined to its nearest boundary.
pub open spec fn greedy_order(ds: Seq<(usize, usize)>, distance: usize, order: Seq<int>, chain: Seq<(usize, usize)>) -> bool {
    let n = ds.len() as int;
    let pairs = n / 2;
    &&& order.len() == n
    &&& order.no_duplicates()
    &&& forall|t: int| 0 <= t < n ==> 0 <= #[trigger] order[t] < n
    &&& chain.len() == (if n % 2 == 1 { n + 1 } else { n })
    &&& forall|t: int| 0 <= t < 2 * pairs ==> #[trigger] chain[t] == ds[order[t]]
    &&& forall|k: int, x: int, y: int|
        #![trigger rest_of(order, k).contains(x), rest_of(order, k).contains(y)]
        0 <= k < pairs && x != y && rest_of(order, k).contains(x) && rest_of(order, k).contains(y) ==> pair_dist(ds, order, k)
            <= manhattan(ds[x], ds[y])
    &&& n % 2 == 1 ==> chain[n - 1] == ds[order[n - 1]] && chain[n] == boundary_of(ds[order[n - 1]], distance)
}

/// The greedy matcher's chain for the defects is one of those above.
pub open spec fn greedy_outcome(ds: Seq<(usize, usize)>, distance: usize, chain: Seq<(usize, usize)>) -> bool {
    exists|order: Seq<int>| #[trigger] greedy_order(ds, distance, order, chain)
}

/// The indices as integers.
pub open spec fn ints(v: Seq<usize>) -> Seq<int> {
    v.map_values(|u: usize| u as int)
}

/// Where the `t`-th item of a sequence with two items taken out (at `lo < hi`) stood before.
pub open spec fn skip_two(t: int, lo: int, hi: int) -> int {
    if t < lo {
        t
    } else if t < hi - 1 {
        t + 1
    } else {
        t + 2
    }
}

/// `all` lists each index below `n` exactly once.
pub open spec fn lists_indices(all: Seq<int>, n: int) -> bool {
    &&& all.len() == n
    &&& all.no_duplicates()
    &&& forall|t: int| 0 <= t < all.len() ==> 0 <= #[trigger] all[t] < n
}

/// Each pair of `order` is at least as close as any two defects that were still
/// unpaired when it was chosen (those of the later pairs and those in `rem`).
pub open spec fn pairs_closest(ds: Seq<(usize, usize)>, order: Seq<int>, rem: Seq<int>) -> bool {
    forall|k: int, x: int, y: int|
        #![trigger (rest_of(order, k) + rem).contains(x), (rest_of(order, k) + rem).contains(y)]
        0 <= k < order.len() / 2 && x != y && (rest_of(order, k) + rem).contains(x) && (rest_of(order, k)
            + rem).contains(y) ==> pair_dist(ds, order, k) <= manhattan(ds[x], ds[y])
}

/// What the greedy matcher keeps while it pairs: the pairs so far and the defects left
/// list every defect once, and each pair was a closest one when it was chosen.
pub open spec fn greedy_progress(ds: Seq<(usize, usize)>, order: Seq<int>, rem: Seq<int>) -> bool {
    &&& lists_indices(order + rem, ds.len() as int)
    &&& order.len() % 2 == 0
    &&& pairs_closest(ds, order, rem)
}

proof fn lemma_remove_two(s: Seq<int>, lo: int, hi: int)
    requires
        0 <= lo < hi < s.len(),
    ensures
        s.remove(hi).remove(lo).len() == s.len() - 2,
        forall|t: int| 0 <= t < s.len() - 2 ==> #[trigger] s.remove(hi).remove(lo)[t] == s[skip_two(t, lo, hi)],
{
    s.remove_ensures(hi);
    s.remove(hi).remove_ensures(lo);
}

/// Taking out a closest pair of the defects left keeps the greedy matcher's progress.
proof fn lemma_greedy_step(
    ds: Seq<(usize, usize)>,
    order: Seq<int>,
    rem: Seq<int>,
    pa: int,
    pb: int,
)
    requires
        greedy_progress(ds, order, rem),
        0 <= pa < rem.len(),
        0 <= pb < rem.len(),
        pa != pb,
        forall|a: int, b: int|
            #![trigger rem[a], rem[b]]
            0 <= a < rem.len() && 0 <= b < rem.len() && a != b ==> manhattan(ds[rem[pa]], ds[rem[pb]]) <= manhattan(
                ds[rem[a]],
                ds[rem[b]],
            ),
    ensures
        ({
            let lo = if pa < pb { pa } else { pb };
            let hi = if pa < pb { pb } else { pa };
            greedy_progress(ds, order.push(rem[pa]).push(rem[pb]), rem.remove(hi).remove(lo))
        }),
{
    let lo = if pa < pb { pa } else { pb };
    let hi = if pa < pb { pb } else { pa };
    let i = rem[pa];
    let j = rem[pb];
    let order1 = order.push(i).push(j);
    let rem1 = rem.remove(hi).remove(lo);
    let len = order.len() as int;
    let all0 = order + rem;
    let all1 = order1 + rem1;
    lemma_remove_two(rem, lo, hi);
    // where each entry of the new listing stood in the old one
    let g = |a: int|
        if a < len {
            a
        } else if a == len {
            len + pa
        } else if a == len + 1 {
            len + pb
        } else {
            len + skip_two(a - len - 2, lo, hi)
        };
    assert forall|a: int| 0 <= a < all1.len() implies 0 <= #[trigger] g(a) < all0.len() && all1[a] == all0[g(a)] by {
        if a >= len + 2 {
            assert(all1[a] == rem1[a - len - 2]);
        }
    }
    assert(all1.no_duplicates()) by {
        assert forall|a: int, b: int| 0 <= a < all1.len() && 0 <= b < all1.len() && a != b implies all1[a] != all1[b] by {
            assert(all1[a] == all0[g(a)]);
            assert(all1[b] == all0[g(b)]);
            assert(g(a) != g(b));
        }
    }
    assert forall|t: int| 0 <= t < all1.len() implies 0 <= #[trigger] all1[t] < ds.len() by {
        assert(all1[t] == all0[g(t)]);
    }
    assert forall|k: int, x: int, y: int|
        0 <= k < order1.len() / 2 && x != y && (rest_of(order1, k) + rem1).contains(x) && (rest_of(order1, k)
            + rem1).contains(y) implies pair_dist(ds, order1, k) <= manhattan(ds[x], ds[y]) by {
        let s1 = rest_of(order1, k) + rem1;
        let s0 = rest_of(order, k) + rem;
        let base1 = len + 2 - 2 * k;
        let base0 = len - 2 * k;
        let h = |t: int|
            if t < base1 {
                if 2 * k + t < len {
                    t
                } else if 2 * k + t == len {
                    base0 + pa
                } else {
                    base0 + pb
                }
            } else {
                base0 + skip_two(t - base1, lo, hi)
            };
        assert forall|t: int| 0 <= t < s1.len() implies 0 <= #[trigger] h(t) < s0.len() && s1[t] == s0[h(t)] by {
            if t >= base1 {
                assert(s1[t] == rem1[t - base1]);
            }
        }
        let tx = choose|t: int| 0 <= t < s1.len() && s1[t] == x;
        let ty = choose|t: int| 0 <= t < s1.len() && s1[t] == y;
        assert(s1[tx] == s0[h(tx)]);
        assert(s1[ty] == s0[h(ty)]);
        assert(s0.contains(x));
        assert(s0.contains(y));
        if k < len / 2 {
            assert(pair_dist(ds, order1, k) == pair_dist(ds, order, k));
        } else {
            assert(s0 =~= rem);
            assert(order1[2 * k] == i && order1[2 * k + 1] == j);
            let ax = h(tx) - base0;
            let ay = h(ty) - base0;
            assert(rem[ax] == x && rem[ay] == y);
        }
    }
}

fn closest_pair(ds: &[(usize, usize)], remaining: &Vec<usize>) -> (r: (usize, usize))
    requires
        remaining@.len() >= 2,
        ints(remaining@).no_duplicates(),
        forall|a: int| 0 <= a < remaining@.len() ==> remaining@[a] < ds@.len(),
        distances_bounded(ds@),
    ensures
        r.0 < remaining@.len() && r.1 < remaining@.len() && r.0 != r.1,
        forall|a: int, b: int|
            #![trigger remaining@[a], remaining@[b]]
            0 <= a < remaining@.len() && 0 <= b < remaining@.len() && a != b ==> manhattan(
                ds@[remaining@[r.0 as int] as int],
                ds@[remaining@[r.1 as int] as int],
            ) <= manhattan(ds@[remaining@[a] as int], ds@[remaining@[b] as int]),
{
    let m = remaining.len();
    let mut min_dist: usize = usize::MAX;
    let mut best: (usize, usize) = (0, 1);
    let mut found = false;
    let mut a: usize = 0;
    while a < m
        invariant
            m == remaining@.len(),
            m >= 2,
            forall|q: int| 0 <= q < m ==> remaining@[q] < ds@.len(),
            distances_bounded(ds@),
            a <= m,
            a > 0 ==> found,
            found ==> best.0 < m && best.1 < m && best.0 != best.1 && min_dist == manhattan(
                ds@[remaining@[best.0 as int] as int],
                ds@[remaining@[best.1 as int] as int],
            ),
            !found ==> best == (0usize, 1usize) && min_dist == usize::MAX,
            forall|x: int, y: int|
                #![trigger remaining@[x], remaining@[y]]
                0 <= x < a && 0 <= y < m && x != y ==> min_dist <= manhattan(ds@[remaining@[x] as int], ds@[remaining@[y] as int]),
        decreases m - a,
    {
        let mut b: usize = 0;
        while b < m
            invariant
                m == remaining@.len(),
                m >= 2,
                forall|q: int| 0 <= q < m ==> remaining@[q] < ds@.len(),
                distances_bounded(ds@),
                a < m,
                b <= m,
                (a > 0 || b > 1 || (b == 1 && a != 0)) ==> found,
                found ==> best.0 < m && best.1 < m && best.0 != best.1 && min_dist == manhattan(
                    ds@[remaining@[best.0 as int] as int],
                    ds@[remaining@[best.1 as int] as int],
                ),
                !found ==> best == (0usize, 1usize) && min_dist == usize::MAX,
                forall|x: int, y: int|
                    #![trigger remaining@[x], remaining@[y]]
                    0 <= x < a && 0 <= y < m && x != y ==> min_dist <= manhattan(ds@[remaining@[x] as int], ds@[remaining@[y] as int]),
                forall|y: int| 0 <= y < b && a != y ==> min_dist <= manhattan(ds@[remaining@[a as int] as int], ds@[#[trigger] remaining@[y] as int]),
            decreases m - b,
        {
            if a != b {
                let i = remaining[a];
                let j = remaining[b];
                proof {
                    assert(3 * manhattan(ds@[i as int], ds@[j as int]) <= isize::MAX);
                    assert(ds@[i as int].0 <= isize::MAX && ds@[i as int].1 <= isize::MAX);
                    assert(ds@[j as int].0 <= isize::MAX && ds@[j as int].1 <= isize::MAX);
                }
                let d = manhattan_distance(ds[i], ds[j]);
                if d < min_dist {
                    min_dist = d;
                    best = (a, b);
                    found = true;
                }
            }
            b += 1;
        }
        a += 1;
    }
    best
}

/// Matches the defects greedily: repeatedly pairs the two closest defects not yet
/// paired; an odd defect out is joined to its nearest boundary.
#[verifier::rlimit(40)]
#[verifier::spinoff_prover]
pub fn greedy_matching(defects: &[(usize, usize)], distance: usize) -> (r: Vec<(usize, usize)>)
    requires
        distances_bounded(defects@),
        defects@.len() % 2 == 1 ==> forall|a: int| 0 <= a < defects@.len() ==> (#[trigger] defects@[a]).0 < distance
            && defects@[a].1 < distance,
    ensures
        greedy_outcome(defects@, distance, r@),
{
    let ghost ds = defects@;
    let ghost n = ds.len() as int;
    let mut remaining: Vec<usize> = Vec::new();
    let mut c: usize = 0;
    while c < defects.len()
        invariant
            c <= defects@.len(),
            remaining@.len() == c,
            forall|t: int| 0 <= t < c ==> #[trigger] remaining@[t] == t,
        decreases defects@.len() - c,
    {
        remaining.push(c);
        c += 1;
    }
    let ghost mut order: Seq<int> = Seq::empty();
    let mut chain: Vec<(usize, usize)> = Vec::new();
    proof {
        assert(order + ints(remaining@) =~= ints(remaining@));
        assert forall|a: int, b: int| 0 <= a < ints(remaining@).len() && 0 <= b < ints(remaining@).len() && a != b implies ints(
            remaining@,
        )[a] != ints(remaining@)[b] by {
            assert(remaining@[a] == a && remaining@[b] == b);
        }
    }
    while remaining.len() >= 2
        invariant
            ds == defects@,
            n == ds.len(),
            distances_bounded(ds),
            greedy_progress(ds, order, ints(remaining@)),
            chain@.len() == order.len(),
            forall|t: int| 0 <= t < order.len() ==> #[trigger] chain@[t] == ds[order[t]],
        decreases remaining@.len(),
    {
        let ghost old_rem_u = remaining@;
        let ghost old_rem = ints(remaining@);
        let ghost old_order = order;
        proof {
            let all = order + old_rem;
            assert forall|a: int, b: int| 0 <= a < old_rem.len() && 0 <= b < old_rem.len() && a != b implies old_rem[a]
                != old_rem[b] by {
                assert(all[order.len() + a] == old_rem[a]);
                assert(all[order.len() + b] == old_rem[b]);
            }
            assert forall|a: int| 0 <= a < remaining@.len() implies remaining@[a] < ds.len() by {
                assert(all[order.len() + a] == old_rem[a]);
            }
        }
        let (pa, pb) = closest_pair(defects, &remaining);
        let i = remaining[pa];
        let j = remaining[pb];
        chain.push(defects[i]);
        chain.push(defects[j]);
        if pa > pb {
            remaining.remove(pa);
            remaining.remove(pb);
        } else {
            remaining.remove(pb);
            remaining.remove(pa);
        }
        proof {
            let lo = if pa < pb { pa as int } else { pb as int };
            let hi = if pa < pb { pb as int } else { pa as int };
            assert(ints(remaining@) =~= old_rem.remove(hi).remove(lo));
            assert forall|a: int, b: int|
                #![trigger old_rem[a], old_rem[b]]
                0 <= a < old_rem.len() && 0 <= b < old_rem.len() && a != b implies manhattan(
                    ds[old_rem[pa as int]],
                    ds[old_rem[pb as int]],
                ) <= manhattan(ds[old_rem[a]], ds[old_rem[b]]) by {
                assert(old_rem_u[a] == old_rem[a] && old_rem_u[b] == old_rem[b]);
            }
            lemma_greedy_step(ds, old_order, old_rem, pa as int, pb as int);
            order = old_order.push(i as int).push(j as int);
            assert forall|t: int| 0 <= t < order.len() implies #[trigger] chain@[t] == ds[order[t]] by {
                if t < old_order.len() {
                    assert(order[t] == old_order[t]);
                }
            }
        }
    }
    let ghost rem_left = ints(remaining@);
    if remaining.len() == 1 {
        let l = remaining[0];
        proof {
            let all = order + rem_left;
            assert(all[order.len() as int] == l as int);
        }
        chain.push(defects[l]);
        chain.push(nearest_boundary(defects[l], distance));
    }
    proof {
        let fin = order + rem_left;
        assert(n / 2 == order.len() / 2);
        assert forall|k: int, x: int, y: int|
            #![trigger rest_of(fin, k).contains(x), rest_of(fin, k).contains(y)]
            0 <= k < n / 2 && x != y && rest_of(fin, k).contains(x) && rest_of(fin, k).contains(y) implies pair_dist(
                ds,
                fin,
                k,
            ) <= manhattan(ds[x], ds[y]) by {
            assert(rest_of(fin, k) =~= rest_of(order, k) + rem_left);
            assert(fin[2 * k] == order[2 * k] && fin[2 * k + 1] == order[2 * k + 1]);
        }
        assert forall|t: int| 0 <= t < 2 * (n / 2) implies #[trigger] chain@[t] == ds[fin[t]] by {
            assert(fin[t] == order[t]);
        }
        assert(greedy_order(ds, distance, fin, chain@));
    }
    chain
}

/// What the matchers need of the defects: for a small set (six or fewer) the
/// distances with the virtual defect stay small; for a larger one the distances
/// stay small and, when the count is odd, every defect lies inside the lattice.
pub open spec fn matching_ready(defects: Seq<(usize, usize)>, distance: usize) -> bool {
    if defects.len() <= 6 {
        distances_bounded(with_virtual(defects, distance))
    } else {
        &&& distances_bounded(defects)
        &&& defects.len() % 2 == 1 ==> forall|a: int|
            0 <= a < defects.len() ==> (#[trigger] defects[a]).0 < distance && defects[a].1 < distance
    }
}

/// Pairs the defects into a correction chain: none gives an empty chain, six or
/// fewer are matched by brute force, more greedily.
pub fn minimum_weight_matching(defects: &[(usize, usize)], distance: usize) -> (r: Vec<(usize, usize)>)
    requires
        matching_ready(defects@, distance),
    ensures
        defects@.len() == 0 ==> r@.len() == 0,
        0 < defects@.len() <= 6 ==> r@ == brute_force_chain(defects@, distance),
        defects@.len() > 6 ==> greedy_outcome(defects@, distance, r@),
{
    if defects.len() == 0 {
        return Vec::new();
    }
    if defects.len() <= 6 {
        return brute_force_matching(defects, distance);
    }
    greedy_matching(defects, distance)
}

/// The positions of the syndromes that fired, in order.
pub open spec fn fired(syndromes: Seq<(usize, usize, bool)>) -> Seq<(usize, usize)>
    decreases syndromes.len(),
{
    if syndromes.len() == 0 {
        Seq::empty()
    } else {
        let last = syndromes.last();
        let before = fired(syndromes.drop_last());
        if last.2 {
            before.push((last.0, last.1))
        } else {
            before
        }
    }
}

/// The positions of the syndromes that fired (the defects), in order.
pub fn fired_defects(syndromes: &[(usize, usize, bool)]) -> (r: Vec<(usize, usize)>)
    ensures
        r@ == fired(syndromes@),
{
    let mut r: Vec<(usize, usize)> = Vec::new();
    let mut k: usize = 0;
    while k < syndromes.len()
        invariant
            k <= syndromes@.len(),
            r@ == fired(syndromes@.take(k as int)),
        decreases syndromes@.len() - k,
    {
        proof {
            assert(syndromes@.take(k + 1).drop_last() =~= syndromes@.take(k as int));
        }
        let (i, j, detected) = syndromes[k];
        if detected {
            r.push((i, j));
        }
        k += 1;
    }
    proof {
        assert(syndromes@.take(k as int) =~= syndromes@);
    }
    r
}

/// The correction chains of the matching decoder for the X and the Z syndromes:
/// the defects of each kind matched, or no chain where none fired.
pub fn decode_correction_chains(
    x_syndromes: &[(usize, usize, bool)],
    z_syndromes: &[(usize, usize, bool)],
    distance: usize,
) -> (r: (Vec<(usize, usize)>, Vec<(usize, usize)>))
    requires
        matching_ready(fired(x_syndromes@), distance),
        matching_ready(fired(z_syndromes@), distance),
    ensures
        fired(x_syndromes@).len() == 0 ==> r.0@.len() == 0,
        0 < fired(x_syndromes@).len() <= 6 ==> r.0@ == brute_force_chain(fired(x_syndromes@), distance),
        fired(x_syndromes@).len() > 6 ==> greedy_outcome(fired(x_syndromes@), distance, r.0@),
        fired(z_syndromes@).len() == 0 ==> r.1@.len() == 0,
        0 < fired(z_syndromes@).len() <= 6 ==> r.1@ == brute_force_chain(fired(z_syndromes@), distance),
        fired(z_syndromes@).len() > 6 ==> greedy_outcome(fired(z_syndromes@), distance, r.1@),
{
    let x_defects = fired_defects(x_syndromes);
    let z_defects = fired_defects(z_syndromes);
    let x_chain = if x_defects.len() > 0 {
        minimum_weight_matching(x_defects.as_slice(), distance)
    } else {
        Vec::new()
    };
    let z_chain = if z_defects.len() > 0 {
        minimum_weight_matching(z_defects.as_slice(), distance)
    } else {
        Vec::new()
    };
    (x_chain, z_chain)
}

/// Why the factoring gave no factors.
#[derive(Debug, PartialEq, Eq, Structural, Clone, Copy)]
pub enum FactoringError {
    /// The number is 1 or 0.
    TooSmall,
    /// The period found is odd.
    OddPeriod,
    /// Neither greatest common divisor gave a proper factor.
    NoFactor,
}

/// The message of a factoring error.
pub open spec fn factoring_error_text(e: FactoringError) -> Seq<char> {
    match e {
        FactoringError::TooSmall => "Cannot factor numbers <= 1"@,
        FactoringError::OddPeriod => "Period is odd, try again"@,
        FactoringError::NoFactor => "Factoring failed, try again"@,
    }
}

impl FactoringError {
    /// The message of the error.
    pub fn message(&self) -> (r: String)
        ensures
            r@ == factoring_error_text(*self),
    {
        let r = match self {
            FactoringError::TooSmall => String::from_str("Cannot factor numbers <= 1"),
            FactoringError::OddPeriod => String::from_str("Period is odd, try again"),
            FactoringError::NoFactor => String::from_str("Factoring failed, try again"),
        };
        r
    }
}

/// The period the order finding stands in with.
pub open spec fn found_period() -> nat {
    4
}

/// Two to the power `k`.
pub open spec fn two_to(k: nat) -> nat
    decreases k,
{
    if k == 0 {
        1
    } else {
        2 * two_to((k - 1) as nat)
    }
}

fn quantum_period_finding(n: usize) -> (r: usize)
    ensures
        r == found_period(),
{
    4
}

/// `k` divides `n`.
pub open spec fn divides(n: nat, k: nat) -> bool {
    n % k == 0
}

/// `i` is the least divisor of `n` from 3 on whose square is at most `n`.
pub open spec fn least_trial_divisor(n: nat, i: nat) -> bool {
    &&& 3 <= i
    &&& i * i <= n
    &&& divides(n, i)
    &&& forall|k: nat| 3 <= k < i ==> !#[trigger] divides(n, k)
}

/// What factoring `n` gives: an error for 0 and 1; `(2, n / 2)` for an even `n`;
/// below 100, the least divisor from 3 up to the square root and its cofactor, or
/// `(1, n)` where there is none; from 100 on, a proper factor found through the
/// greatest common divisor of `n` with one less and one more than `2` to half the
/// period, and its cofactor.
pub open spec fn factoring_outcome(n: nat, r: Result<(usize, usize), FactoringError>) -> bool {
    if n <= 1 {
        r == Err::<(usize, usize), FactoringError>(FactoringError::TooSmall)
    } else if n % 2 == 0 {
        r == Ok::<(usize, usize), FactoringError>((2usize, (n / 2) as usize))
    } else if n < 100 {
        match r {
            Ok(p) => (least_trial_divisor(n, p.0 as nat) && p.1 == n / (p.0 as nat)) || (p == (1usize, n as usize)
                && forall|i: nat| !#[trigger] least_trial_divisor(n, i)),
            Err(_) => false,
        }
    } else {
        let half = two_to(found_period() / 2);
        let f1 = spec_gcd((half - 1) as nat, n);
        let f2 = spec_gcd(half + 1, n);
        if 1 < f1 < n {
            r == Ok::<(usize, usize), FactoringError>((f1 as usize, (n / f1) as usize))
        } else if 1 < f2 < n {
            r == Ok::<(usize, usize), FactoringError>((f2 as usize, (n / f2) as usize))
        } else {
            r == Err::<(usize, usize), FactoringError>(FactoringError::NoFactor)
        }
    }
}

/// The greatest common divisor divides both numbers (when it is not 0).
proof fn lemma_gcd_divides(a: nat, b: nat)
    ensures
        spec_gcd(a, b) > 0 ==> a % spec_gcd(a, b) == 0 && b % spec_gcd(a, b) == 0,
    decreases b,
{
    let g = spec_gcd(a, b);
    if b == 0 {
        if g > 0 {
            vstd::arithmetic::div_mod::lemma_mod_multiples_basic(1, g as int);
            vstd::arithmetic::div_mod::lemma_mod_multiples_basic(0, g as int);
        }
    } else {
        lemma_gcd_divides(b, a % b);
        if g > 0 {
            let r = a % b;
            vstd::arithmetic::div_mod::lemma_fundamental_div_mod(a as int, b as int);
            vstd::arithmetic::div_mod::lemma_fundamental_div_mod(b as int, g as int);
            vstd::arithmetic::div_mod::lemma_fundamental_div_mod(r as int, g as int);
            let k1 = b as int / g as int;
            let k2 = r as int / g as int;
            let q = a as int / b as int;
            assert(a as int == (q * k1 + k2) * g) by (nonlinear_arith)
                requires
                    a as int == b * q + r,
                    b as int == g * k1,
                    r as int == g * k2,
            ;
            vstd::arithmetic::div_mod::lemma_mod_multiples_basic(q * k1 + k2, g as int);
        }
    }
}

/// A divisor times the quotient gives the number back.
proof fn lemma_divisor_times_quotient(n: int, d: int)
    requires
        d > 0,
        n % d == 0,
    ensures
        d * (n / d) == n,
{
    vstd::arithmetic::div_mod::lemma_fundamental_div_mod(n, d);
}

/// Shor's factoring with its classical shortcuts: even numbers and those below 100
/// by trial division, larger ones through the period of the order finding.
pub fn shors_factoring(n: usize) -> (r: Result<(usize, usize), FactoringError>)
    ensures
        factoring_outcome(n as nat, r),
        r matches Ok(p) ==> p.0 * p.1 == n,
{
    if n <= 1 {
        return Err(FactoringError::TooSmall);
    }
    if n % 2 == 0 {
        proof {
            lemma_divisor_times_quotient(n as int, 2);
        }
        return Ok((2, n / 2));
    }
    if n < 100 {
        let mut i: usize = 3;
        while i <= n / i
            invariant
                3 <= i <= 10,
                2 <= n < 100,
                n % 2 == 1,
                forall|k: nat| 3 <= k < i ==> !#[trigger] divides(n as nat, k),
            decreases 10 - i,
        {
            proof {
                assert(i * i <= n) by (nonlinear_arith)
                    requires
                        i <= n / i,
                        i >= 3,
                ;
            }
            if n % i == 0 {
                let r = Ok((i, n / i));
                proof {
                    assert(least_trial_divisor(n as nat, i as nat));
                    assert(factoring_outcome(n as nat, r));
                    lemma_divisor_times_quotient(n as int, i as int);
                }
                return r;
            }
            proof {
                assert(i < 10) by (nonlinear_arith)
                    requires
                        i * i <= n,
                        n < 100,
                        i >= 3,
                ;
            }
            i += 1;
        }
        proof {
            assert(i * i > n) by (nonlinear_arith)
                requires
                    i > n / i,
                    i >= 3,
            ;
            assert forall|d: nat| !least_trial_divisor(n as nat, d) by {
                if least_trial_divisor(n as nat, d) {
                    if d >= i {
                        assert(d * d >= i * i) by (nonlinear_arith)
                            requires
                                d >= i,
                                i >= 3,
                        ;
                    }
                }
            }
        }
        return Ok((1, n));
    }
    let period = quantum_period_finding(n);
    if period % 2 != 0 {
        return Err(FactoringError::OddPeriod);
    }
    let half_period = period / 2;
    let mut power: usize = 1;
    let mut k: usize = 0;
    while k < half_period
        invariant
            half_period == 2,
            k <= half_period,
            power == two_to(k as nat),
        decreases half_period - k,
    {
        proof {
            reveal_with_fuel(two_to, 3);
        }
        power = power * 2;
        k += 1;
    }
    proof {
        reveal_with_fuel(two_to, 3);
        assert(power == 4);
    }
    let factor1 = gcd(power - 1, n);
    let factor2 = gcd(power + 1, n);
    proof {
        lemma_gcd_divides((power - 1) as nat, n as nat);
        lemma_gcd_divides((power + 1) as nat, n as nat);
    }
    if factor1 > 1 && factor1 < n {
        proof {
            lemma_divisor_times_quotient(n as int, factor1 as int);
        }
        Ok((factor1, n / factor1))
    } else if factor2 > 1 && factor2 < n {
        proof {
            lemma_divisor_times_quotient(n as int, factor2 as int);
        }
        Ok((factor2, n / factor2))
    } else {
        Err(FactoringError::NoFactor)
    }
}

} // verus!
