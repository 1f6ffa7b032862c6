//! The recursive game scan: an iterative breadth-first traversal with an
//! explicit work queue over an arena of directory snapshots, a caller-set
//! depth limit, exclusion of hidden directories and of runtime installs, an
//! early stop below classified directories, and progress arithmetic.

use vstd::prelude::*;

use crate::engine::detect_engine_type;
use crate::engine::is_nwjs_runtime_dir;
use crate::engine::spec_detect;
use crate::engine::spec_is_nwjs_runtime_dir;
use crate::engine::EngineType;
use crate::fsmodel::DirSnapshot;
use crate::profile::spec_key_views;
use crate::records::strings_contain;
use crate::text::str_chars;

verus! {

/// One directory of the scanned tree: its snapshot and the indices of its
/// child directories in the arena.
pub struct ScanNode {
    /// The directory's observed contents.
    pub snapshot: DirSnapshot,
    /// Arena indices of the subdirectories.
    pub children: Vec<usize>,
}

/// A directory tree as an arena: node 0 is the root, and every child index
/// is strictly greater than its parent's.
pub struct FsTree {
    /// The nodes of the tree.
    pub nodes: Vec<ScanNode>,
}

impl FsTree {
    /// Well-formedness: child indices stay in the arena and grow strictly,
    /// so the structure is acyclic.
    pub open spec fn wf(&self) -> bool {
        forall|i: int, j: int|
            0 <= i < self.nodes@.len() && 0 <= j < self.nodes@[i].children@.len() ==> i < #[trigger] self.nodes@[i].children@[j]
                < self.nodes@.len()
    }
}

/// Whether a node's directory is hidden: its name starts with a dot.
pub open spec fn spec_node_hidden(n: &ScanNode) -> bool {
    n.snapshot.dir_name@.len() > 0 && n.snapshot.dir_name@[0] == '.'
}

/// Whether a node's directory is hidden.
fn node_hidden(n: &ScanNode) -> (r: bool)
    ensures
        r == spec_node_hidden(n),
{
    let v = str_chars(n.snapshot.dir_name.as_str());
    v.len() > 0 && v[0] == '.'
}

/// The number of `false` entries of a boolean sequence.
pub open spec fn spec_count_false(s: Seq<bool>) -> nat
    decreases s.len(),
{
    if s.len() == 0 {
        0
    } else {
        spec_count_false(s.drop_last()) + (if s.last() {
            0nat
        } else {
            1nat
        })
    }
}

/// Setting a `false` entry to `true` lowers the count by one.
proof fn lemma_count_false_update(s: Seq<bool>, i: int)
    requires
        0 <= i < s.len(),
        !s[i],
    ensures
        spec_count_false(s) >= 1,
        spec_count_false(s.update(i, true)) == spec_count_false(s) - 1,
    decreases s.len(),
{
    let u = s.update(i, true);
    if i == s.len() - 1 {
        assert(u.drop_last() =~= s.drop_last());
        assert(u.last());
        assert(!s.last());
    } else {
        assert(u.drop_last() =~= s.drop_last().update(i, true));
        assert(u.last() == s.last());
        lemma_count_false_update(s.drop_last(), i);
    }
}

/// A sequence that is `true` at its head and `false` elsewhere has one
/// `false` per remaining entry.
proof fn lemma_count_false_head_true(s: Seq<bool>)
    requires
        s.len() >= 1,
        s[0],
        forall|i: int| 1 <= i < s.len() ==> !s[i],
    ensures
        spec_count_false(s) == s.len() - 1,
    decreases s.len(),
{
    if s.len() == 1 {
        assert(spec_count_false(s) == spec_count_false(s.drop_last()) + (if s.last() {
            0nat
        } else {
            1nat
        }));
        assert(s.drop_last() =~= Seq::<bool>::empty());
    } else {
        assert(!s[s.len() - 1]);
        assert(!s.last());
        assert(s.drop_last()[0]);
        assert(forall|i: int| 1 <= i < s.drop_last().len() ==> !#[trigger] s.drop_last()[i]);
        lemma_count_false_head_true(s.drop_last());
        assert(spec_count_false(s) == spec_count_false(s.drop_last()) + 1);
    }
}

/// The floored percentage `done` makes of `total`, capped at one hundred.
pub open spec fn spec_percent_of(done: nat, total: nat) -> u8 {
    if total == 0 {
        0
    } else if done * 100 / total > 100 {
        100
    } else {
        (done * 100 / total) as u8
    }
}

/// The percentage never falls as progress grows.
pub proof fn lemma_percent_monotone(a: nat, b: nat, total: nat)
    requires
        a <= b,
    ensures
        spec_percent_of(a, total) <= spec_percent_of(b, total),
{
    if total > 0 {
        assert(a * 100 / total <= b * 100 / total) by (nonlinear_arith)
            requires
                a <= b,
                total > 0,
        ;
    }
}

/// Computes the floored, capped percentage of progress.
pub fn percent_of(done: u32, total: u32) -> (r: u8)
    ensures
        r == spec_percent_of(done as nat, total as nat),
{
    if total == 0 {
        return 0;
    }
    let p: u64 = (done as u64) * 100 / (total as u64);
    assert(p == (done as nat) * 100 / (total as nat));
    if p > 100 {
        100
    } else {
        p as u8
    }
}

// === what a traversal is ===

/// Whether a node may be descended into by the game scan: it is neither a
/// runtime install nor itself classified as a game.
pub open spec fn spec_node_eligible(tree: &FsTree, v: usize) -> bool {
    &&& v < tree.nodes@.len()
    &&& !spec_is_nwjs_runtime_dir(&tree.nodes@[v as int].snapshot)
    &&& spec_detect(&tree.nodes@[v as int].snapshot) is None
}

/// Whether a traversal entry (node and depth) is within bounds.
pub open spec fn spec_entry_ok(tree: &FsTree, e: (usize, u32), max_depth: u32) -> bool {
    e.0 < tree.nodes@.len() && e.1 <= max_depth
}

/// Whether a traversal descends below this entry: its depth is under the
/// limit, and — when classification stops descent — the node is eligible.
pub open spec fn spec_may_descend(
    tree: &FsTree,
    e: (usize, u32),
    max_depth: u32,
    stop_at_games: bool,
) -> bool {
    &&& e.0 < tree.nodes@.len()
    &&& e.1 < max_depth
    &&& (stop_at_games ==> spec_node_eligible(tree, e.0))
}

/// Whether `c` is a child of `p` in the arena.
pub open spec fn spec_is_child(tree: &FsTree, p: usize, c: usize) -> bool {
    p < tree.nodes@.len() && exists|j: int|
        0 <= j < tree.nodes@[p as int].children@.len() && #[trigger] tree.nodes@[p as int].children@[j]
            == c
}

/// Whether entry `ce` is reached from entry `pe` in one traversal step.
pub open spec fn spec_step(
    tree: &FsTree,
    pe: (usize, u32),
    ce: (usize, u32),
    max_depth: u32,
    stop_at_games: bool,
) -> bool {
    &&& spec_may_descend(tree, pe, max_depth, stop_at_games)
    &&& spec_is_child(tree, pe.0, ce.0)
    &&& ce.1 == pe.1 + 1
}

/// Whether some entry of `q` inspects node `v`.
pub open spec fn spec_in_traversal(q: Seq<(usize, u32)>, v: usize) -> bool {
    exists|k: int| 0 <= k < q.len() && (#[trigger] q[k]).0 == v
}

/// Whether the first `h` entries of `q` have all their descendants listed:
/// every non-hidden child of an entry that may be descended into appears
/// somewhere in `q`.
pub open spec fn spec_closed_upto(
    tree: &FsTree,
    q: Seq<(usize, u32)>,
    max_depth: u32,
    stop_at_games: bool,
    h: int,
) -> bool {
    forall|p: int, j: int|
        0 <= p < h && p < q.len() && spec_may_descend(tree, #[trigger] q[p], max_depth, stop_at_games)
            && 0 <= j < tree.nodes@[(q[p].0) as int].children@.len() && !spec_node_hidden(
            &tree.nodes@[(#[trigger] tree.nodes@[(q[p].0) as int].children@[j]) as int],
        ) ==> spec_in_traversal(q, tree.nodes@[(q[p].0) as int].children@[j])
}

/// Whether `vs` records exactly one breadth-style traversal of the tree:
/// it opens with the root at depth zero; no node is inspected twice; every
/// entry is in bounds; every entry but the root is a non-hidden node reached
/// by one step from an earlier entry; and the list is closed — whenever an
/// entry may be descended into, each of its non-hidden children is inspected
/// somewhere. `stop_at_games` says whether classified or runtime directories
/// block descent (they do for the game scan, not for the directory count).
pub open spec fn spec_traversal(
    tree: &FsTree,
    vs: Seq<(usize, u32)>,
    max_depth: u32,
    stop_at_games: bool,
) -> bool {
    &&& vs.len() >= 1
    &&& vs[0] == (0usize, 0u32)
    &&& forall|k: int| 0 <= k < vs.len() ==> spec_entry_ok(tree, #[trigger] vs[k], max_depth)
    &&& forall|k1: int, k2: int|
        0 <= k1 < k2 < vs.len() ==> (#[trigger] vs[k1]).0 != (#[trigger] vs[k2]).0
    &&& forall|k: int|
        1 <= k < vs.len() ==> !spec_node_hidden(&tree.nodes@[(#[trigger] vs[k]).0 as int])
            && exists|p: int| 0 <= p < k && spec_step(tree, vs[p], vs[k], max_depth, stop_at_games)
    &&& spec_closed_upto(tree, vs, max_depth, stop_at_games, vs.len() as int)
}

/// The classifications a traversal yields, in inspection order: each
/// inspected directory that is no runtime install and whose snapshot
/// classifies contributes its node and family.
pub open spec fn spec_found_of(tree: &FsTree, vs: Seq<(usize, u32)>) -> Seq<(usize, EngineType)>
    decreases vs.len(),
{
    if vs.len() == 0 {
        Seq::empty()
    } else {
        let r = spec_found_of(tree, vs.drop_last());
        let v = vs.last().0;
        if v < tree.nodes@.len() && !spec_is_nwjs_runtime_dir(&tree.nodes@[v as int].snapshot)
            && spec_detect(&tree.nodes@[v as int].snapshot) is Some {
            r.push((v, spec_detect(&tree.nodes@[v as int].snapshot)->0))
        } else {
            r
        }
    }
}

/// The progress events the first `n` inspections emit: when the total is
/// known and positive, one capped, floored percentage at every twentieth
/// inspection and at the inspection that reaches the total.
pub open spec fn spec_progress_of(total: nat, n: nat) -> Seq<u8>
    decreases n,
{
    if n == 0 {
        Seq::empty()
    } else {
        spec_progress_of(total, (n - 1) as nat) + (if total > 0 && (n % 20 == 0 || n == total) {
            seq![spec_percent_of(n, total)]
        } else {
            Seq::empty()
        })
    }
}

/// What one breadth-first scan reports.
pub struct ScanOutcome {
    /// The directories inspected, with their depths, in inspection order.
    pub visited: Vec<(usize, u32)>,
    /// The nodes that classified as games, with their families.
    pub found: Vec<(usize, EngineType)>,
    /// The progress percentages emitted, in order.
    pub progress: Vec<u8>,
    /// The pre-computed directory total behind the percentages.
    pub total_dirs: u32,
}

/// Counts the directories a scan of the tree would inspect down to the
/// depth limit, hidden directories excluded, with a floor of one: the
/// result is the length of a full breadth-style traversal that descends
/// through every directory, classified or not.
#[verifier::rlimit(100)]
pub fn count_dirs(tree: &FsTree, max_depth: u32) -> (r: u32)
    requires
        tree.wf(),
        tree.nodes@.len() >= 1,
        tree.nodes@.len() <= u32::MAX,
    ensures
        r >= 1,
        exists|vs: Seq<(usize, u32)>|
            spec_traversal(tree, vs, max_depth, false) && r as nat == vs.len(),
{
    let n: usize = tree.nodes.len();
    let mut seen: Vec<bool> = Vec::new();
    seen.push(true);
    let mut k: usize = 1;
    while k < n
        invariant
            1 <= k <= n,
            seen@.len() == k,
            seen@[0],
            forall|i: int| 1 <= i < k ==> !seen@[i],
        decreases n - k,
    {
        seen.push(false);
        k = k + 1;
    }
    proof {
        lemma_count_false_head_true(seen@);
    }
    let mut remaining: usize = n - 1;
    let mut queue: Vec<(usize, u32)> = Vec::new();
    queue.push((0, 0));
    let mut head: usize = 0;
    proof {
        assert((queue@[0]).0 == 0usize);
        assert forall|m: int| 0 <= m < n && #[trigger] seen@[m] implies spec_in_traversal(
            queue@,
            m as usize,
        ) by {
            if m != 0 {
                assert(!seen@[m]);
            }
            assert((queue@[0]).0 == m as usize);
        }
    }
    loop
        invariant
            tree.wf(),
            tree.nodes@.len() == n,
            1 <= n <= u32::MAX,
            seen@.len() == n,
            seen@[0],
            head <= queue@.len(),
            queue@.len() + remaining <= n,
            remaining == spec_count_false(seen@),
            queue@.len() >= 1,
            queue@[0] == (0usize, 0u32),
            forall|q: int| 0 <= q < queue@.len() ==> spec_entry_ok(tree, #[trigger] queue@[q], max_depth),
            forall|q: int| 0 <= q < queue@.len() ==> seen@[(#[trigger] queue@[q]).0 as int],
            forall|q1: int, q2: int|
                0 <= q1 < q2 < queue@.len() ==> (#[trigger] queue@[q1]).0 != (
                #[trigger] queue@[q2]).0,
            forall|q: int|
                1 <= q < queue@.len() ==> !spec_node_hidden(
                    &tree.nodes@[(#[trigger] queue@[q]).0 as int],
                ) && exists|p: int| 0 <= p < q && spec_step(tree, queue@[p], queue@[q], max_depth, false),
            forall|m: int|
                0 <= m < n && #[trigger] seen@[m] ==> spec_in_traversal(queue@, m as usize),
            spec_closed_upto(tree, queue@, max_depth, false, head as int),
        decreases remaining + queue@.len() - head,
    {
        if head >= queue.len() {
            assert(spec_traversal(tree, queue@, max_depth, false));
            assert(queue@.len() <= n <= u32::MAX);
            let count: usize = queue.len();
            return count as u32;
        }
        let (idx, depth) = queue[head];
        let ghost h0 = head;
        head = head + 1;
        if depth >= max_depth {
            assert(spec_closed_upto(tree, queue@, max_depth, false, head as int)) by {
                assert(!spec_may_descend(tree, queue@[h0 as int], max_depth, false));
            }
            continue;
        }
        let node = &tree.nodes[idx];
        let ghost m0 = remaining + queue@.len();
        let mut c: usize = 0;
        while c < node.children.len()
            invariant
                tree.wf(),
                tree.nodes@.len() == n,
                1 <= n <= u32::MAX,
                seen@.len() == n,
                seen@[0],
                head <= queue@.len(),
                queue@.len() + remaining <= n,
                remaining == spec_count_false(seen@),
                0 <= c <= node.children@.len(),
                depth < max_depth,
                idx < n,
                node == &tree.nodes@[idx as int],
                head >= 1,
                queue@[head - 1] == (idx, depth),
                queue@.len() >= 1,
                queue@[0] == (0usize, 0u32),
                forall|q: int|
                    0 <= q < queue@.len() ==> spec_entry_ok(tree, #[trigger] queue@[q], max_depth),
                forall|q: int| 0 <= q < queue@.len() ==> seen@[(#[trigger] queue@[q]).0 as int],
                forall|q1: int, q2: int|
                    0 <= q1 < q2 < queue@.len() ==> (#[trigger] queue@[q1]).0 != (
                    #[trigger] queue@[q2]).0,
                forall|q: int|
                    1 <= q < queue@.len() ==> !spec_node_hidden(
                        &tree.nodes@[(#[trigger] queue@[q]).0 as int],
                    ) && exists|p: int|
                        0 <= p < q && spec_step(tree, queue@[p], queue@[q], max_depth, false),
                forall|m: int|
                    0 <= m < n && #[trigger] seen@[m] ==> spec_in_traversal(queue@, m as usize),
                spec_closed_upto(tree, queue@, max_depth, false, head - 1),
                forall|j: int|
                    0 <= j < c && !spec_node_hidden(
                        &tree.nodes@[(#[trigger] node.children@[j]) as int],
                    ) ==> spec_in_traversal(queue@, node.children@[j]),
                remaining + queue@.len() == m0,
            decreases node.children@.len() - c,
        {
            let child = node.children[c];
            assert(child < n);
            let hidden = node_hidden(&tree.nodes[child]);
            if !seen[child] && !hidden {
                proof {
                    lemma_count_false_update(seen@, child as int);
                }
                let ghost old_seen = seen@;
                let ghost old_queue = queue@;
                seen[child] = true;
                remaining = remaining - 1;
                queue.push((child, depth + 1));
                proof {
                    assert(queue@[queue@.len() - 1] == (child, (depth + 1) as u32));
                    assert(spec_step(
                        tree,
                        queue@[head - 1],
                        (child, (depth + 1) as u32),
                        max_depth,
                        false,
                    )) by {
                        assert(tree.nodes@[idx as int].children@[c as int] == child);
                    }
                    assert(spec_in_traversal(queue@, child)) by {
                        assert((queue@[queue@.len() - 1]).0 == child);
                    }
                    assert forall|m: int| 0 <= m < n && #[trigger] seen@[m] implies spec_in_traversal(
                        queue@,
                        m as usize,
                    ) by {
                        if m == child {
                            assert((queue@[queue@.len() - 1]).0 == child);
                        } else {
                            assert(old_seen[m]);
                            let w = choose|w: int|
                                0 <= w < old_queue.len() && (#[trigger] old_queue[w]).0
                                    == m as usize;
                            assert((queue@[w]).0 == m as usize);
                        }
                    }
                    assert forall|q1: int, q2: int|
                        0 <= q1 < q2 < queue@.len() implies (#[trigger] queue@[q1]).0 != (
                    #[trigger] queue@[q2]).0 by {
                        if q2 == queue@.len() - 1 {
                            assert(old_seen[(old_queue[q1]).0 as int]);
                        }
                    }
                    assert forall|q: int| 1 <= q < queue@.len() implies !spec_node_hidden(
                        &tree.nodes@[(#[trigger] queue@[q]).0 as int],
                    ) && exists|p: int|
                        0 <= p < q && spec_step(tree, queue@[p], queue@[q], max_depth, false) by {
                        if q < old_queue.len() {
                            assert(queue@[q] == old_queue[q]);
                            let p = choose|p: int|
                                0 <= p < q && spec_step(
                                    tree,
                                    old_queue[p],
                                    old_queue[q],
                                    max_depth,
                                    false,
                                );
                            assert(spec_step(tree, queue@[p], queue@[q], max_depth, false));
                        } else {
                            assert(queue@[q] == (child, (depth + 1) as u32));
                            assert(spec_step(
                                tree,
                                queue@[head - 1],
                                queue@[q],
                                max_depth,
                                false,
                            ));
                        }
                    }
                    assert forall|j: int|
                        0 <= j < c + 1 && !spec_node_hidden(
                            &tree.nodes@[(#[trigger] node.children@[j]) as int],
                        ) implies spec_in_traversal(queue@, node.children@[j]) by {
                        if j < c {
                            let w = choose|w: int|
                                0 <= w < old_queue.len() && (#[trigger] old_queue[w]).0
                                    == node.children@[j];
                            assert((queue@[w]).0 == node.children@[j]);
                        } else {
                            assert((queue@[queue@.len() - 1]).0 == child);
                        }
                    }
                    assert forall|p: int, j: int|
                        0 <= p < head - 1 && p < queue@.len() && spec_may_descend(
                            tree,
                            #[trigger] queue@[p],
                            max_depth,
                            false,
                        ) && 0 <= j < tree.nodes@[(queue@[p].0) as int].children@.len()
                            && !spec_node_hidden(
                            &tree.nodes@[(#[trigger] tree.nodes@[(queue@[p].0) as int].children@[j]) as int],
                        ) implies spec_in_traversal(
                        queue@,
                        tree.nodes@[(queue@[p].0) as int].children@[j],
                    ) by {
                        assert(queue@[p] == old_queue[p]);
                        assert(spec_in_traversal(
                            old_queue,
                            tree.nodes@[(old_queue[p].0) as int].children@[j],
                        ));
                        let w = choose|w: int|
                            0 <= w < old_queue.len() && (#[trigger] old_queue[w]).0
                                == tree.nodes@[(old_queue[p].0) as int].children@[j];
                        assert((queue@[w]).0 == tree.nodes@[(queue@[p].0) as int].children@[j]);
                    }
                }
            } else {
                assert(!spec_node_hidden(&tree.nodes@[child as int]) ==> spec_in_traversal(
                    queue@,
                    child,
                )) by {
                    if !hidden {
                        assert(seen@[child as int]);
                    }
                }
            }
            c = c + 1;
        }
        assert(spec_closed_upto(tree, queue@, max_depth, false, head as int)) by {
            assert(forall|j: int|
                0 <= j < tree.nodes@[idx as int].children@.len() && !spec_node_hidden(
                    &tree.nodes@[(#[trigger] tree.nodes@[idx as int].children@[j]) as int],
                ) ==> spec_in_traversal(queue@, tree.nodes@[idx as int].children@[j]));
        }
    }
}

/// Scans the tree breadth-first for game directories: the inspected
/// directories form a traversal that stops below classified directories and
/// runtime installs; the classifications are exactly those of the inspected
/// directories; and the progress percentages are exactly the fixed-cadence
/// events over the pre-computed directory total.
///
/// A scan with a depth limit of zero inspects the root directory alone and
/// never reads its children.
#[verifier::rlimit(100)]
pub fn scan_games_tree(tree: &FsTree, max_depth: u32) -> (r: ScanOutcome)
    requires
        tree.wf(),
        tree.nodes@.len() >= 1,
        tree.nodes@.len() <= u32::MAX,
    ensures
        spec_traversal(tree, r.visited@, max_depth, true),
        max_depth == 0 ==> r.visited@ == seq![(0usize, 0u32)],
        r.found@ == spec_found_of(tree, r.visited@),
        exists|vs: Seq<(usize, u32)>|
            spec_traversal(tree, vs, max_depth, false) && r.total_dirs as nat == vs.len(),
        r.progress@ == spec_progress_of(r.total_dirs as nat, r.visited@.len()),
        forall|k: int| 0 <= k < r.progress@.len() ==> #[trigger] r.progress@[k] <= 100,
        forall|k: int, l: int|
            0 <= k <= l < r.progress@.len() ==> #[trigger] r.progress@[k] <= #[trigger] r.progress@[l],
{
    let n: usize = tree.nodes.len();
    let total: u32 = count_dirs(tree, max_depth);
    let mut seen: Vec<bool> = Vec::new();
    seen.push(true);
    let mut k: usize = 1;
    while k < n
        invariant
            1 <= k <= n,
            seen@.len() == k,
            seen@[0],
            forall|i: int| 1 <= i < k ==> !seen@[i],
        decreases n - k,
    {
        seen.push(false);
        k = k + 1;
    }
    proof {
        lemma_count_false_head_true(seen@);
    }
    let mut remaining: usize = n - 1;
    let mut queue: Vec<(usize, u32)> = Vec::new();
    queue.push((0, 0));
    let mut head: usize = 0;
    proof {
        assert((queue@[0]).0 == 0usize);
        assert forall|m: int| 0 <= m < n && #[trigger] seen@[m] implies spec_in_traversal(
            queue@,
            m as usize,
        ) by {
            if m != 0 {
                assert(!seen@[m]);
            }
            assert((queue@[0]).0 == m as usize);
        }
    }
    let mut visited: Vec<(usize, u32)> = Vec::new();
    let mut found: Vec<(usize, EngineType)> = Vec::new();
    let mut progress: Vec<u8> = Vec::new();
    let ghost mut last_done: nat = 0;
    loop
        invariant
            tree.wf(),
            tree.nodes@.len() == n,
            1 <= n <= u32::MAX,
            seen@.len() == n,
            seen@[0],
            head <= queue@.len(),
            queue@.len() + remaining <= n,
            remaining == spec_count_false(seen@),
            visited@ == queue@.take(head as int),
            queue@.len() >= 1,
            queue@[0] == (0usize, 0u32),
            forall|q: int| 0 <= q < queue@.len() ==> spec_entry_ok(tree, #[trigger] queue@[q], max_depth),
            forall|q: int| 0 <= q < queue@.len() ==> seen@[(#[trigger] queue@[q]).0 as int],
            forall|q1: int, q2: int|
                0 <= q1 < q2 < queue@.len() ==> (#[trigger] queue@[q1]).0 != (
                #[trigger] queue@[q2]).0,
            forall|q: int|
                1 <= q < queue@.len() ==> !spec_node_hidden(
                    &tree.nodes@[(#[trigger] queue@[q]).0 as int],
                ) && exists|p: int| 0 <= p < q && spec_step(tree, queue@[p], queue@[q], max_depth, true),
            forall|m: int|
                0 <= m < n && #[trigger] seen@[m] ==> spec_in_traversal(queue@, m as usize),
            spec_closed_upto(tree, queue@, max_depth, true, head as int),
            max_depth == 0 ==> queue@.len() == 1,
            exists|vs: Seq<(usize, u32)>|
                spec_traversal(tree, vs, max_depth, false) && total as nat == vs.len(),
            found@ == spec_found_of(tree, visited@),
            progress@ == spec_progress_of(total as nat, head as nat),
            forall|j: int| 0 <= j < progress@.len() ==> #[trigger] progress@[j] <= 100,
            forall|j: int, l: int|
                0 <= j <= l < progress@.len() ==> #[trigger] progress@[j] <= #[trigger] progress@[l],
            last_done <= head,
            progress@.len() > 0 ==> progress@.last() == spec_percent_of(
                last_done,
                total as nat,
            ),
        decreases remaining + queue@.len() - head,
    {
        if head >= queue.len() {
            assert(visited@ =~= queue@);
            assert(spec_traversal(tree, visited@, max_depth, true));
            if max_depth == 0 {
                assert(visited@ =~= seq![(0usize, 0u32)]);
            }
            return ScanOutcome { visited, found, progress, total_dirs: total };
        }
        let (idx, depth) = queue[head];
        let ghost h0 = head;
        let ghost prev_visited = visited@;
        head = head + 1;
        visited.push((idx, depth));
        assert(visited@ =~= queue@.take(head as int));
        assert(visited@.drop_last() =~= prev_visited);
        let scanned: usize = visited.len();
        assert(scanned == head);
        assert(scanned <= n <= u32::MAX);
        let s32: u32 = scanned as u32;
        if total > 0 && (scanned % 20 == 0 || s32 == total) {
            let p = percent_of(s32, total);
            proof {
                lemma_percent_monotone(last_done, scanned as nat, total as nat);
                if progress@.len() > 0 {
                    assert(progress@.last() <= p);
                }
                last_done = scanned as nat;
            }
            let ghost prev_progress = progress@;
            progress.push(p);
            assert(progress@ =~= prev_progress + seq![spec_percent_of(head as nat, total as nat)]);
            assert(progress@ =~= spec_progress_of(total as nat, head as nat));
        } else {
            assert(progress@ + Seq::<u8>::empty() =~= progress@);
            assert(progress@ =~= spec_progress_of(total as nat, head as nat));
        }
        if depth > max_depth {
            assert(false);
            continue;
        }
        let node = &tree.nodes[idx];
        if is_nwjs_runtime_dir(&node.snapshot) {
            assert(found@ =~= spec_found_of(tree, visited@));
            assert(spec_closed_upto(tree, queue@, max_depth, true, head as int)) by {
                assert(!spec_may_descend(tree, queue@[h0 as int], max_depth, true));
            }
            continue;
        }
        match detect_engine_type(&node.snapshot) {
            Some(et) => {
                let ghost prev_found = found@;
                found.push((idx, et));
                assert(found@ =~= prev_found.push((idx, et)));
                assert(found@ =~= spec_found_of(tree, visited@));
                assert(spec_closed_upto(tree, queue@, max_depth, true, head as int)) by {
                    assert(!spec_may_descend(tree, queue@[h0 as int], max_depth, true));
                }
                continue;
            },
            None => {
                assert(found@ =~= spec_found_of(tree, visited@));
            },
        }
        if depth == max_depth {
            assert(spec_closed_upto(tree, queue@, max_depth, true, head as int)) by {
                assert(!spec_may_descend(tree, queue@[h0 as int], max_depth, true));
            }
            continue;
        }
        assert(spec_node_eligible(tree, idx));
        let ghost m0 = remaining + queue@.len();
        let mut c: usize = 0;
        while c < node.children.len()
            invariant
                tree.wf(),
                tree.nodes@.len() == n,
                1 <= n <= u32::MAX,
                seen@.len() == n,
                seen@[0],
                head <= queue@.len(),
                queue@.len() + remaining <= n,
                remaining == spec_count_false(seen@),
                0 <= c <= node.children@.len(),
                depth < max_depth,
                idx < n,
                node == &tree.nodes@[idx as int],
                spec_node_eligible(tree, idx),
                head >= 1,
                queue@[head - 1] == (idx, depth),
                visited@ == queue@.take(head as int),
                queue@.len() >= 1,
                queue@[0] == (0usize, 0u32),
                forall|q: int|
                    0 <= q < queue@.len() ==> spec_entry_ok(tree, #[trigger] queue@[q], max_depth),
                forall|q: int| 0 <= q < queue@.len() ==> seen@[(#[trigger] queue@[q]).0 as int],
                forall|q1: int, q2: int|
                    0 <= q1 < q2 < queue@.len() ==> (#[trigger] queue@[q1]).0 != (
                    #[trigger] queue@[q2]).0,
                forall|q: int|
                    1 <= q < queue@.len() ==> !spec_node_hidden(
                        &tree.nodes@[(#[trigger] queue@[q]).0 as int],
                    ) && exists|p: int|
                        0 <= p < q && spec_step(tree, queue@[p], queue@[q], max_depth, true),
                forall|m: int|
                    0 <= m < n && #[trigger] seen@[m] ==> spec_in_traversal(queue@, m as usize),
                spec_closed_upto(tree, queue@, max_depth, true, head - 1),
                forall|j: int|
                    0 <= j < c && !spec_node_hidden(
                        &tree.nodes@[(#[trigger] node.children@[j]) as int],
                    ) ==> spec_in_traversal(queue@, node.children@[j]),
                found@ == spec_found_of(tree, visited@),
                progress@ == spec_progress_of(total as nat, head as nat),
                forall|j: int| 0 <= j < progress@.len() ==> #[trigger] progress@[j] <= 100,
                forall|j: int, l: int|
                    0 <= j <= l < progress@.len() ==> #[trigger] progress@[j] <= #[trigger] progress@[l],
                last_done <= head,
                progress@.len() > 0 ==> progress@.last() == spec_percent_of(
                    last_done,
                    total as nat,
                ),
                remaining + queue@.len() == m0,
            decreases node.children@.len() - c,
        {
            let child = node.children[c];
            assert(child < n);
            let hidden = node_hidden(&tree.nodes[child]);
            if !seen[child] && !hidden {
                proof {
                    lemma_count_false_update(seen@, child as int);
                }
                let ghost old_seen = seen@;
                let ghost old_queue = queue@;
                seen[child] = true;
                remaining = remaining - 1;
                queue.push((child, depth + 1));
                proof {
                    assert(queue@[queue@.len() - 1] == (child, (depth + 1) as u32));
                    assert(visited@ =~= queue@.take(head as int));
                    assert(spec_step(
                        tree,
                        queue@[head - 1],
                        (child, (depth + 1) as u32),
                        max_depth,
                        true,
                    )) by {
                        assert(tree.nodes@[idx as int].children@[c as int] == child);
                    }
                    assert(spec_in_traversal(queue@, child)) by {
                        assert((queue@[queue@.len() - 1]).0 == child);
                    }
                    assert forall|m: int| 0 <= m < n && #[trigger] seen@[m] implies spec_in_traversal(
                        queue@,
                        m as usize,
                    ) by {
                        if m == child {
                            assert((queue@[queue@.len() - 1]).0 == child);
                        } else {
                            assert(old_seen[m]);
                            let w = choose|w: int|
                                0 <= w < old_queue.len() && (#[trigger] old_queue[w]).0
                                    == m as usize;
                            assert((queue@[w]).0 == m as usize);
                        }
                    }
                    assert forall|q1: int, q2: int|
                        0 <= q1 < q2 < queue@.len() implies (#[trigger] queue@[q1]).0 != (
                    #[trigger] queue@[q2]).0 by {
                        if q2 == queue@.len() - 1 {
                            assert(old_seen[(old_queue[q1]).0 as int]);
                        }
                    }
                    assert forall|q: int| 1 <= q < queue@.len() implies !spec_node_hidden(
                        &tree.nodes@[(#[trigger] queue@[q]).0 as int],
                    ) && exists|p: int|
                        0 <= p < q && spec_step(tree, queue@[p], queue@[q], max_depth, true) by {
                        if q < old_queue.len() {
                            assert(queue@[q] == old_queue[q]);
                            let p = choose|p: int|
                                0 <= p < q && spec_step(
                                    tree,
                                    old_queue[p],
                                    old_queue[q],
                                    max_depth,
                                    true,
                                );
                            assert(spec_step(tree, queue@[p], queue@[q], max_depth, true));
                        } else {
                            assert(queue@[q] == (child, (depth + 1) as u32));
                            assert(spec_step(
                                tree,
                                queue@[head - 1],
                                queue@[q],
                                max_depth,
                                true,
                            ));
                        }
                    }
                    assert forall|j: int|
                        0 <= j < c + 1 && !spec_node_hidden(
                            &tree.nodes@[(#[trigger] node.children@[j]) as int],
                        ) implies spec_in_traversal(queue@, node.children@[j]) by {
                        if j < c {
                            let w = choose|w: int|
                                0 <= w < old_queue.len() && (#[trigger] old_queue[w]).0
                                    == node.children@[j];
                            assert((queue@[w]).0 == node.children@[j]);
                        } else {
                            assert((queue@[queue@.len() - 1]).0 == child);
                        }
                    }
                    assert forall|p: int, j: int|
                        0 <= p < head - 1 && p < queue@.len() && spec_may_descend(
                            tree,
                            #[trigger] queue@[p],
                            max_depth,
                            true,
                        ) && 0 <= j < tree.nodes@[(queue@[p].0) as int].children@.len()
                            && !spec_node_hidden(
                            &tree.nodes@[(#[trigger] tree.nodes@[(queue@[p].0) as int].children@[j]) as int],
                        ) implies spec_in_traversal(
                        queue@,
                        tree.nodes@[(queue@[p].0) as int].children@[j],
                    ) by {
                        assert(queue@[p] == old_queue[p]);
                        assert(spec_in_traversal(
                            old_queue,
                            tree.nodes@[(old_queue[p].0) as int].children@[j],
                        ));
                        let w = choose|w: int|
                            0 <= w < old_queue.len() && (#[trigger] old_queue[w]).0
                                == tree.nodes@[(old_queue[p].0) as int].children@[j];
                        assert((queue@[w]).0 == tree.nodes@[(queue@[p].0) as int].children@[j]);
                    }
                }
            } else {
                assert(!spec_node_hidden(&tree.nodes@[child as int]) ==> spec_in_traversal(
                    queue@,
                    child,
                )) by {
                    if !hidden {
                        assert(seen@[child as int]);
                    }
                }
            }
            c = c + 1;
        }
        assert(spec_closed_upto(tree, queue@, max_depth, true, head as int)) by {
            assert(forall|j: int|
                0 <= j < tree.nodes@[idx as int].children@.len() && !spec_node_hidden(
                    &tree.nodes@[(#[trigger] tree.nodes@[idx as int].children@[j]) as int],
                ) ==> spec_in_traversal(queue@, tree.nodes@[idx as int].children@[j]));
        }
    }
}

/// The import decision over the found game paths: paths already present
/// among the existing records (or found twice in one scan) are skipped, the
/// rest are imported, in order.
pub open spec fn spec_import_plan(found: Seq<Seq<char>>, existing: Seq<Seq<char>>) -> (
    Seq<Seq<char>>,
    nat,
)
    decreases found.len(),
{
    if found.len() == 0 {
        (Seq::empty(), 0)
    } else if existing.contains(found[0]) {
        let rest = spec_import_plan(found.skip(1), existing);
        (rest.0, rest.1 + 1)
    } else {
        let rest = spec_import_plan(found.skip(1), existing.push(found[0]));
        (seq![found[0]] + rest.0, rest.1)
    }
}

/// Splits the found game paths into those to import and the count of those
/// skipped because a record already has the path; a path found twice in one
/// scan is imported once.
pub fn plan_scan_imports(found: Vec<String>, existing: Vec<String>) -> (r: (Vec<String>, usize))
    ensures
        spec_import_plan(spec_key_views(found@), spec_key_views(existing@)) == (
            spec_key_views(r.0@),
            r.1 as nat,
        ),
{
    let ghost fviews = spec_key_views(found@);
    let ghost eviews0 = spec_key_views(existing@);
    let mut fs = found;
    let flen: usize = fs.len();
    let mut known = existing;
    let mut to_import: Vec<String> = Vec::new();
    let mut skipped: usize = 0;
    assert(spec_key_views(to_import@) =~= Seq::<Seq<char>>::empty());
    loop
        invariant
            fviews == spec_key_views(found@),
            eviews0 == spec_key_views(existing@),
            skipped + fs@.len() <= flen,
            spec_import_plan(fviews, eviews0) == {
                let rest = spec_import_plan(spec_key_views(fs@), spec_key_views(known@));
                (spec_key_views(to_import@) + rest.0, (skipped as nat) + rest.1)
            },
        decreases fs@.len(),
    {
        if fs.len() == 0 {
            assert(spec_key_views(to_import@) + Seq::<Seq<char>>::empty()
                =~= spec_key_views(to_import@));
            return (to_import, skipped);
        }
        let ghost fsv = spec_key_views(fs@);
        let p = fs.remove(0);
        assert(fsv[0] == p@);
        assert(spec_key_views(fs@) =~= fsv.skip(1));
        if strings_contain(&known, p.as_str()) {
            skipped = skipped + 1;
        } else {
            let ghost before_imp = spec_key_views(to_import@);
            let ghost before_known = spec_key_views(known@);
            let ghost pv = p@;
            to_import.push(p.clone());
            known.push(p);
            assert(spec_key_views(to_import@) =~= before_imp.push(pv));
            assert(spec_key_views(known@) =~= before_known.push(pv));
            proof {
                let rest = spec_import_plan(fsv.skip(1), before_known.push(pv));
                assert(before_imp + (seq![pv] + rest.0) =~= spec_key_views(to_import@) + rest.0);
            }
        }
    }
}

} // verus!
