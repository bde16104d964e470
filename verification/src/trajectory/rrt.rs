use vstd::prelude::*;

verus! {

/// Seed used in place of zero, which is a fixed point of the xorshift step.
pub const DEFAULT_RNG_SEED: u64 = 0x853c49e6748fea9b;

/// Multiplier of the xorshift64* output scrambler.
pub const XORSHIFT_MULTIPLIER: u64 = 0x2545F4914F6CDD1D;

/// One xorshift64 state transition: shifts by 12 right, 25 left, 27 right.
pub open spec fn xorshift_step(x: u64) -> u64 {
    let a = x ^ (x >> 12u64);
    let b = a ^ (a << 25u64);
    b ^ (b >> 27u64)
}

/// The value emitted for a freshly advanced state: the state times the
/// xorshift64* multiplier, modulo 2^64.
pub open spec fn scrambled_output(x: u64) -> u64 {
    ((x as nat * XORSHIFT_MULTIPLIER as nat) % 0x1_0000_0000_0000_0000) as u64
}

/// The state a generator starts from for a given seed.
pub open spec fn seeded_state(seed: u64) -> u64 {
    if seed == 0 { DEFAULT_RNG_SEED } else { seed }
}

/// Fast, deterministic 64-bit pseudo-random number generator (Xorshift64*).
pub struct SimpleRng {
    state: u64,
}

impl View for SimpleRng {
    type V = u64;

    closed spec fn view(&self) -> u64 {
        self.state
    }
}

impl SimpleRng {
    #[verifier::type_invariant]
    spec fn state_nonzero(self) -> bool {
        self.state != 0
    }

    /// Creates a generator; a zero seed is replaced by a fixed non-zero seed.
    pub fn new(seed: u64) -> (rng: Self)
        ensures
            rng@ == seeded_state(seed),
    {
        Self { state: if seed == 0 { DEFAULT_RNG_SEED } else { seed } }
    }

    /// Advances the state by one xorshift step and returns the scrambled state.
    pub fn next_u64(&mut self) -> (r: u64)
        ensures
            final(self)@ == xorshift_step(old(self)@),
            r == scrambled_output(final(self)@),
    {
        proof {
            use_type_invariant(&*self);
        }
        let mut x = self.state;
        x ^= x >> 12;
        x ^= x << 25;
        x ^= x >> 27;
        proof {
            lemma_xorshift_step_nonzero(self.state);
        }
        self.state = x;
        x.wrapping_mul(XORSHIFT_MULTIPLIER)
    }
}

/// A non-zero state never steps to zero: each of the three shift-xor stages
/// keeps the highest (right shifts) or lowest (left shift) set bit.
pub proof fn lemma_xorshift_step_nonzero(x: u64)
    requires
        x != 0,
    ensures
        xorshift_step(x) != 0,
{
    let a = x ^ (x >> 12u64);
    assert(a != 0) by (bit_vector)
        requires
            x != 0,
            a == x ^ (x >> 12u64),
    ;
    let b = a ^ (a << 25u64);
    assert(b != 0) by (bit_vector)
        requires
            a != 0,
            b == a ^ (a << 25u64),
    ;
    assert(b ^ (b >> 27u64) != 0) by (bit_vector)
        requires
            b != 0,
    ;
}


/// A generator step is the xorshift64 transition with the shift triple
/// (12, 25, 27): a right-shift xor by 12, then a left-shift xor by 25, then a
/// right-shift xor by 27; the value handed out is the new state times
/// 0x2545F4914F6CDD1D, wrapping at 2^64 (xorshift64*).
pub proof fn lemma_step_is_xorshift64_star(x: u64)
    ensures
        ({
            let a: u64 = x ^ (x >> 12u64);
            let b: u64 = a ^ (a << 25u64);
            let c: u64 = b ^ (b >> 27u64);
            &&& xorshift_step(x) == c
            &&& scrambled_output(c) == (c as nat * 0x2545F4914F6CDD1Dnat) % 0x1_0000_0000_0000_0000nat
        }),
{
}

/// The generator state after `n` steps from `state`.
pub open spec fn state_after(state: u64, n: nat) -> u64
    decreases n,
{
    if n == 0 {
        state
    } else {
        xorshift_step(state_after(state, (n - 1) as nat))
    }
}

/// A generator never reaches the all-zero state, which would repeat forever:
/// whatever the seed, every state it steps through is non-zero.
pub proof fn lemma_generator_never_stalls(seed: u64, n: nat)
    ensures
        state_after(seeded_state(seed), n) != 0,
    decreases n,
{
    if n > 0 {
        lemma_generator_never_stalls(seed, (n - 1) as nat);
        lemma_xorshift_step_nonzero(state_after(seeded_state(seed), (n - 1) as nat));
    }
}

/// A zero seed yields the same stream as the default seed.
pub proof fn lemma_zero_seed_is_default_seed(n: nat)
    ensures
        state_after(seeded_state(0), n) == state_after(seeded_state(DEFAULT_RNG_SEED), n),
{
}

/// Selector for the active RRT search algorithm.
#[derive(Debug, Clone, Copy, PartialEq, Eq, Structural)]
pub enum RrtAlgorithm {
    /// Bi-directional RRT (RRT-Connect) grows two trees simultaneously (fastest convergence).
    RrtConnect,
    /// Single-tree Rapidly-exploring Random Tree with goal biasing.
    StandardRrt,
}

impl Default for RrtAlgorithm {
    /// RRT-Connect is the default.
    fn default() -> (a: Self)
        ensures
            a == RrtAlgorithm::RrtConnect,
    {
        RrtAlgorithm::RrtConnect
    }
}


// ---------------------------------------------------------------------------
// Search trees
// ---------------------------------------------------------------------------

/// Node in a configuration-space search tree: a configuration and the index
/// of the node it was grown from (`None` for a root).
#[derive(Debug, Clone)]
pub struct RrtNode<T> {
    pub q: T,
    pub parent_idx: Option<usize>,
}

/// Every node's parent comes before it in the tree, as it does when nodes
/// are only ever appended below existing ones.
pub open spec fn tree_well_formed<T>(tree: Seq<RrtNode<T>>) -> bool {
    forall|i: int|
        0 <= i < tree.len() ==> match #[trigger] tree[i].parent_idx {
            Some(p) => p < i,
            None => true,
        }
}

/// Indices of the nodes from the root of node `i`'s branch down to `i`.
pub open spec fn root_path<T>(tree: Seq<RrtNode<T>>, i: int) -> Seq<int>
    decreases i,
{
    if 0 <= i < tree.len() && tree[i].parent_idx is Some && tree[i].parent_idx->0 < i {
        root_path(tree, tree[i].parent_idx->0 as int).push(i)
    } else {
        seq![i]
    }
}

/// On a well-formed tree the root path of node `i` starts at a root, ends at
/// `i`, and each node on it is the parent of the next.
pub proof fn lemma_root_path_shape<T>(tree: Seq<RrtNode<T>>, i: int)
    requires
        tree_well_formed(tree),
        0 <= i < tree.len(),
    ensures
        root_path(tree, i).len() >= 1,
        root_path(tree, i).last() == i,
        tree[root_path(tree, i)[0]].parent_idx is None,
        forall|k: int|
            0 <= k < root_path(tree, i).len() ==> 0 <= #[trigger] root_path(tree, i)[k] <= i,
        forall|k: int|
            0 <= k < root_path(tree, i).len() - 1 ==> tree[root_path(tree, i)[k + 1]].parent_idx
                == Some(#[trigger] root_path(tree, i)[k] as usize),
    decreases i,
{
    assert(match tree[i].parent_idx {
        Some(p) => p < i,
        None => true,
    });
    if tree[i].parent_idx is Some {
        let p = tree[i].parent_idx->0 as int;
        lemma_root_path_shape(tree, p);
    }
}

/// Indices of the nodes from `curr_idx` up to the root of its branch, leaf
/// first: the root path read backwards.
fn branch_indices<T>(tree: &[RrtNode<T>], curr_idx: usize) -> (chain: Vec<usize>)
    requires
        tree_well_formed(tree@),
        curr_idx < tree@.len(),
    ensures
        chain@.len() == root_path(tree@, curr_idx as int).len(),
        forall|m: int|
            0 <= m < chain@.len() ==> #[trigger] chain@[m] as int == root_path(
                tree@,
                curr_idx as int,
            )[chain@.len() - 1 - m],
{
    let ghost rp = root_path(tree@, curr_idx as int);
    let mut chain: Vec<usize> = Vec::new();
    let mut curr = curr_idx;
    proof {
        lemma_root_path_shape(tree@, curr_idx as int);
        assert(rp.take(rp.len() as int) =~= rp);
    }
    loop
        invariant
            tree_well_formed(tree@),
            rp == root_path(tree@, curr_idx as int),
            curr < tree@.len(),
            chain@.len() < rp.len(),
            root_path(tree@, curr as int) == rp.take(rp.len() - chain@.len()),
            forall|m: int| 0 <= m < chain@.len() ==> #[trigger] chain@[m] as int == rp[rp.len() - 1 - m],
        decreases curr,
    {
        proof {
            lemma_root_path_shape(tree@, curr as int);
            assert(match tree@[curr as int].parent_idx {
                Some(p) => p < curr,
                None => true,
            });
        }
        let ghost c = chain@.len();
        assert(rp[rp.len() - 1 - c] == curr as int);
        chain.push(curr);
        match tree[curr].parent_idx {
            Some(parent) => {
                assert(root_path(tree@, curr as int) == root_path(tree@, parent as int).push(
                    curr as int,
                ));
                assert(root_path(tree@, parent as int) =~= rp.take(rp.len() - chain@.len()));
                curr = parent;
            },
            None => {
                assert(root_path(tree@, curr as int) == seq![curr as int]);
                assert(rp.take(rp.len() - c).len() == 1);
                assert(chain@.len() == rp.len());
                assert forall|m: int| 0 <= m < chain@.len() implies #[trigger] chain@[m] as int
                    == rp[rp.len() - 1 - m] by {
                    if m == c {
                        assert(chain@[m] == curr);
                    }
                }
                return chain;
            },
        }
    }
}

/// Reconstructs the path from the root of node `curr_idx`'s branch down to
/// that node: clones of the configurations along the root path, root first.
pub fn reconstruct_path<T: Clone>(tree: &[RrtNode<T>], curr_idx: usize) -> (path: Vec<T>)
    requires
        tree_well_formed(tree@),
        curr_idx < tree@.len(),
    ensures
        path@.len() == root_path(tree@, curr_idx as int).len(),
        forall|k: int|
            0 <= k < path@.len() ==> cloned(
                tree@[root_path(tree@, curr_idx as int)[k]].q,
                #[trigger] path@[k],
            ),
{
    let ghost rp = root_path(tree@, curr_idx as int);
    proof {
        lemma_root_path_shape(tree@, curr_idx as int);
    }
    let chain = branch_indices(tree, curr_idx);
    let n = chain.len();
    let mut path: Vec<T> = Vec::new();
    let mut k: usize = n;
    while k > 0
        invariant
            rp == root_path(tree@, curr_idx as int),
            k <= n == chain@.len() == rp.len(),
            forall|m: int| 0 <= m < n ==> #[trigger] chain@[m] as int == rp[n - 1 - m],
            forall|m: int| 0 <= m < rp.len() ==> 0 <= #[trigger] rp[m] < tree@.len(),
            path@.len() == n - k,
            forall|m: int| 0 <= m < path@.len() ==> cloned(tree@[rp[m]].q, #[trigger] path@[m]),
        decreases k,
    {
        let idx = chain[k - 1];
        assert(rp[n - k] == idx as int);
        let q = tree[idx].q.clone();
        path.push(q);
        k = k - 1;
    }
    path
}


// ---------------------------------------------------------------------------
// Path shortcutting
// ---------------------------------------------------------------------------

/// The edge check `edge_ok` accepted the straight edge from `a` to `b`.
pub open spec fn edge_accepted<T, F: Fn(&T, &T) -> bool>(edge_ok: F, a: T, b: T) -> bool {
    call_ensures(edge_ok, (&a, &b), true)
}

/// `short` keeps the waypoints of `orig` at the increasing positions `kept`,
/// the first and the last among them, and every two waypoints that became
/// neighbours without being neighbours in `orig` were accepted by `edge_ok`.
pub open spec fn is_shortcut_of<T, F: Fn(&T, &T) -> bool>(
    orig: Seq<T>,
    short: Seq<T>,
    kept: Seq<int>,
    edge_ok: F,
) -> bool {
    &&& kept.len() == short.len()
    &&& kept.len() >= 1
    &&& kept[0] == 0
    &&& kept.last() == orig.len() - 1
    &&& forall|k: int| 0 <= k < kept.len() ==> 0 <= #[trigger] kept[k] < orig.len()
    &&& forall|k: int| 0 <= k < kept.len() ==> short[k] == orig[#[trigger] kept[k]]
    &&& forall|k: int, l: int| 0 <= k < l < kept.len() ==> #[trigger] kept[k] < #[trigger] kept[l]
    &&& forall|k: int|
        0 <= k < kept.len() - 1 ==> #[trigger] kept[k + 1] == kept[k] + 1 || edge_accepted(
            edge_ok,
            short[k],
            short[k + 1],
        )
}

/// The pair of path positions that one shortcut attempt on a path of `n`
/// waypoints tries to join, drawn from two random numbers, when they are at
/// least two apart: the first random number picks among the first `n - 1`
/// positions, the second among all `n`.
pub open spec fn shortcut_pair(n: int, r1: u64, r2: u64) -> Option<(int, int)> {
    let i = (r1 as usize) as int % (n - 1);
    let j = (r2 as usize) as int % n;
    let (a, b) = if i < j {
        (i, j)
    } else {
        (j, i)
    };
    if b <= a + 1 {
        None
    } else {
        Some((a, b))
    }
}

/// `result` and `final_state` are a possible outcome of shortcutting `path`
/// for `iterations` attempts starting from generator state `state`: each
/// attempt (while more than two waypoints remain) draws two numbers, and when
/// they pick two positions at least two apart, the waypoints between them are
/// removed if `edge_ok` accepts the edge joining them and kept if it rejects it.
pub open spec fn shortcut_outcome<T, F: Fn(&T, &T) -> bool>(
    path: Seq<T>,
    state: u64,
    iterations: nat,
    edge_ok: F,
    result: Seq<T>,
    final_state: u64,
) -> bool
    decreases iterations,
{
    if iterations == 0 || path.len() <= 2 {
        result == path && final_state == state
    } else {
        let s1 = xorshift_step(state);
        let s2 = xorshift_step(s1);
        let rest = (iterations - 1) as nat;
        match shortcut_pair(path.len() as int, scrambled_output(s1), scrambled_output(s2)) {
            None => shortcut_outcome(path, s2, rest, edge_ok, result, final_state),
            Some((a, b)) => {
                ||| edge_accepted(edge_ok, path[a], path[b]) && shortcut_outcome(
                    spliced(path, a, b),
                    s2,
                    rest,
                    edge_ok,
                    result,
                    final_state,
                )
                ||| call_ensures(edge_ok, (&path[a], &path[b]), false) && shortcut_outcome(
                    path,
                    s2,
                    rest,
                    edge_ok,
                    result,
                    final_state,
                )
            },
        }
    }
}

/// One shortcut attempt that moved `path` to `next` and the generator from
/// `state` to `next_state` extends every outcome of the remaining attempts to
/// an outcome of all of them.
proof fn lemma_shortcut_outcome_step<T, F: Fn(&T, &T) -> bool>(
    path: Seq<T>,
    state: u64,
    iterations: nat,
    edge_ok: F,
    next: Seq<T>,
    next_state: u64,
    result: Seq<T>,
    final_state: u64,
)
    requires
        iterations > 0,
        path.len() > 2,
        next_state == xorshift_step(xorshift_step(state)),
        shortcut_outcome(next, next_state, (iterations - 1) as nat, edge_ok, result, final_state),
        ({
            let s1 = xorshift_step(state);
            match shortcut_pair(path.len() as int, scrambled_output(s1), scrambled_output(next_state)) {
                None => next == path,
                Some((a, b)) => {
                    ||| edge_accepted(edge_ok, path[a], path[b]) && next == spliced(path, a, b)
                    ||| call_ensures(edge_ok, (&path[a], &path[b]), false) && next == path
                },
            }
        }),
    ensures
        shortcut_outcome(path, state, iterations, edge_ok, result, final_state),
{
}

/// `s` without the elements strictly between positions `a` and `b`.
pub open spec fn spliced<A>(s: Seq<A>, a: int, b: int) -> Seq<A> {
    s.subrange(0, a + 1) + s.subrange(b, s.len() as int)
}

/// Removing the waypoints between two positions whose joining edge was
/// accepted keeps a shortcut a shortcut.
pub proof fn lemma_splice_keeps_shortcut<T, F: Fn(&T, &T) -> bool>(
    orig: Seq<T>,
    short: Seq<T>,
    kept: Seq<int>,
    a: int,
    b: int,
    edge_ok: F,
)
    requires
        is_shortcut_of(orig, short, kept, edge_ok),
        0 <= a,
        a + 1 < b < short.len(),
        edge_accepted(edge_ok, short[a], short[b]),
    ensures
        is_shortcut_of(orig, spliced(short, a, b), spliced(kept, a, b), edge_ok),
        spliced(short, a, b).len() < short.len(),
{
    let ns = spliced(short, a, b);
    let nk = spliced(kept, a, b);
    let c = a + 1;
    assert forall|k: int| 0 <= k < nk.len() implies 0 <= #[trigger] nk[k] < orig.len() && ns[k]
        == orig[nk[k]] by {
        if k < c {
            assert(nk[k] == kept[k] && ns[k] == short[k]);
        } else {
            assert(nk[k] == kept[k - c + b] && ns[k] == short[k - c + b]);
        }
    }
    assert forall|k: int, l: int| 0 <= k < l < nk.len() implies #[trigger] nk[k]
        < #[trigger] nk[l] by {
        let k0 = if k < c {
            k
        } else {
            k - c + b
        };
        let l0 = if l < c {
            l
        } else {
            l - c + b
        };
        assert(nk[k] == kept[k0]);
        assert(nk[l] == kept[l0]);
    }
    assert forall|k: int| 0 <= k < nk.len() - 1 implies #[trigger] nk[k + 1] == nk[k] + 1
        || edge_accepted(edge_ok, ns[k], ns[k + 1]) by {
        if k + 1 < c {
            assert(nk[k] == kept[k] && nk[k + 1] == kept[k + 1]);
            assert(ns[k] == short[k] && ns[k + 1] == short[k + 1]);
            assert(kept[k + 1] == kept[k] + 1 || edge_accepted(edge_ok, short[k], short[k + 1]));
        } else if k + 1 == c {
            assert(ns[k] == short[a]);
            assert(ns[k + 1] == short[b]);
        } else {
            let k0 = k - c + b;
            assert(nk[k] == kept[k0]);
            assert(nk[k + 1] == kept[k0 + 1]);
            assert(ns[k] == short[k0] && ns[k + 1] == short[k0 + 1]);
            assert(kept[k0 + 1] == kept[k0] + 1 || edge_accepted(edge_ok, short[k0], short[k0 + 1]));
        }
    }
    assert(nk.last() == kept.last());
    assert(nk[0] == kept[0]);
}

/// Applies post-planning path shortcutting to remove zig-zag waypoints: up to
/// `max_iterations` times, two random waypoints at least two apart are chosen
/// and, if `edge_ok` accepts the straight edge between them, the waypoints in
/// between are removed. Paths of at most two waypoints are returned as they are.
pub fn shortcut_path<T, F: Fn(&T, &T) -> bool>(
    path: Vec<T>,
    max_iterations: usize,
    rng: &mut SimpleRng,
    edge_ok: F,
) -> (r: Vec<T>)
    requires
        forall|a: &T, b: &T| edge_ok.requires((a, b)),
    ensures
        shortcut_outcome(path@, old(rng)@, max_iterations as nat, edge_ok, r@, final(rng)@),
        path@.len() <= 2 ==> r@ == path@ && final(rng)@ == old(rng)@,
        r@.len() <= path@.len(),
        path@.len() > 0 ==> exists|kept: Seq<int>| is_shortcut_of(path@, r@, kept, edge_ok),
{
    let ghost orig = path@;
    let ghost start = rng@;
    if path.len() <= 2 {
        proof {
            if orig.len() > 0 {
                let kept = Seq::new(orig.len(), |i: int| i);
                assert(is_shortcut_of(orig, orig, kept, edge_ok));
            }
        }
        return path;
    }
    let mut path = path;
    let ghost mut kept: Seq<int> = Seq::new(orig.len(), |i: int| i);
    let mut iteration: usize = 0;
    while iteration < max_iterations
        invariant
            forall|a: &T, b: &T| edge_ok.requires((a, b)),
            orig.len() > 2,
            path@.len() <= orig.len(),
            is_shortcut_of(orig, path@, kept, edge_ok),
            iteration <= max_iterations,
            forall|res: Seq<T>, fs: u64|
                #[trigger] shortcut_outcome(path@, rng@, (max_iterations - iteration) as nat, edge_ok, res, fs)
                    ==> shortcut_outcome(orig, start, max_iterations as nat, edge_ok, res, fs),
        ensures
            shortcut_outcome(path@, rng@, (max_iterations - iteration) as nat, edge_ok, path@, rng@),
        decreases max_iterations - iteration,
    {
        let ghost before = path@;
        let ghost state0 = rng@;
        let ghost remaining = (max_iterations - iteration) as nat;
        iteration = iteration + 1;
        let n = path.len();
        if n <= 2 {
            assert(shortcut_outcome(before, state0, remaining, edge_ok, before, state0));
            break;
        }
        let i = (rng.next_u64() as usize) % (n - 1);
        let j = (rng.next_u64() as usize) % n;
        let (idx1, idx2) = if i < j {
            (i, j)
        } else {
            (j, i)
        };
        let ghost s1 = xorshift_step(state0);
        let ghost pair = shortcut_pair(n as int, scrambled_output(s1), scrambled_output(rng@));
        if idx2 <= idx1 + 1 {
            assert(pair is None);
            assert forall|res: Seq<T>, fs: u64|
                #[trigger] shortcut_outcome(path@, rng@, (max_iterations - iteration) as nat, edge_ok, res, fs)
                    implies shortcut_outcome(orig, start, max_iterations as nat, edge_ok, res, fs) by {
                lemma_shortcut_outcome_step(before, state0, remaining, edge_ok, path@, rng@, res, fs);
            }
            continue;
        }
        assert(pair == Some((idx1 as int, idx2 as int)));
        let accepted = edge_ok(&path[idx1], &path[idx2]);
        if accepted {
            let ghost before = path@;
            let ghost kept_before = kept;
            assert(edge_accepted(edge_ok, before[idx1 as int], before[idx2 as int]));
            let mut tail = path.split_off(idx2);
            path.truncate(idx1 + 1);
            path.append(&mut tail);
            proof {
                assert(path@ =~= spliced(before, idx1 as int, idx2 as int));
                lemma_splice_keeps_shortcut(orig, before, kept_before, idx1 as int, idx2 as int, edge_ok);
                kept = spliced(kept_before, idx1 as int, idx2 as int);
            }
        }
        assert forall|res: Seq<T>, fs: u64|
            #[trigger] shortcut_outcome(path@, rng@, (max_iterations - iteration) as nat, edge_ok, res, fs)
                implies shortcut_outcome(orig, start, max_iterations as nat, edge_ok, res, fs) by {
            lemma_shortcut_outcome_step(before, state0, remaining, edge_ok, path@, rng@, res, fs);
        }
    }
    assert(shortcut_outcome(path@, rng@, (max_iterations - iteration) as nat, edge_ok, path@, rng@));
    path
}

} // verus!
