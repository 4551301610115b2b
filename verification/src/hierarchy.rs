//! The scene's parent/child structure, as the editor's rules read it: which
//! entities exist and who each one's parent is.

use vstd::prelude::*;
use std::collections::HashMap;

verus! {

broadcast use vstd::std_specs::hash::group_hash_axioms;

/// The parent recorded for `x` (`None` for a root or an entity not in `m`).
pub open spec fn parent_in(m: Map<u64, Option<u64>>, x: u64) -> Option<u64> {
    if m.contains_key(x) {
        m[x]
    } else {
        None
    }
}

/// The entity `k` steps up the parent chain from `x` (`Some(x)` for `k == 0`),
/// or `None` once the chain has ended.
pub open spec fn ancestor(m: Map<u64, Option<u64>>, x: u64, k: nat) -> Option<u64>
    decreases k,
{
    if k == 0 {
        Some(x)
    } else {
        match parent_in(m, x) {
            Some(p) => ancestor(m, p, (k - 1) as nat),
            None => None,
        }
    }
}

/// `entity` is `root` or lies below it: `root` is met going up the parent
/// chain from `entity`.
pub open spec fn within_subtree(m: Map<u64, Option<u64>>, root: u64, entity: u64) -> bool {
    exists|k: nat| #[trigger] ancestor(m, entity, k) == Some(root)
}

/// Moving `child` under `new_parent` (or to the root level) is accepted.
pub open spec fn reparent_allowed(m: Map<u64, Option<u64>>, child: u64, new_parent: Option<u64>) -> bool {
    &&& m.contains_key(child)
    &&& match new_parent {
        Some(p) => p != child && m.contains_key(p) && !within_subtree(m, child, p),
        None => true,
    }
}

/// The current parent of `child` that it must be detached from, if that
/// parent still exists.
pub open spec fn detach_target(m: Map<u64, Option<u64>>, child: u64) -> Option<u64> {
    match parent_in(m, child) {
        Some(o) => if m.contains_key(o) {
            Some(o)
        } else {
            None
        },
        None => None,
    }
}

/// The structure after detaching `child` from `detach_from` and attaching
/// it to `attach_to`.
pub open spec fn after_reparent(
    m: Map<u64, Option<u64>>,
    child: u64,
    detach_from: Option<u64>,
    attach_to: Option<u64>,
) -> Map<u64, Option<u64>> {
    match attach_to {
        Some(p) => m.insert(child, Some(p)),
        None => if detach_from is Some {
            m.insert(child, None)
        } else {
            m
        },
    }
}

/// Following parents from `x` eventually ends.
pub open spec fn chain_ends(m: Map<u64, Option<u64>>, x: u64) -> bool {
    exists|n: nat| #[trigger] ancestor(m, x, n) is None
}

/// No entity is its own ancestor: every parent chain ends.
pub open spec fn acyclic(m: Map<u64, Option<u64>>) -> bool {
    forall|x: u64| #[trigger] chain_ends(m, x)
}

/// One more step up the chain is the parent of the entity reached so far.
pub proof fn lemma_ancestor_step(m: Map<u64, Option<u64>>, x: u64, k: nat)
    ensures
        ancestor(m, x, k + 1) == match ancestor(m, x, k) {
            Some(y) => parent_in(m, y),
            None => None,
        },
    decreases k,
{
    match parent_in(m, x) {
        Some(p) => {
            assert(ancestor(m, x, k + 1) == ancestor(m, p, k));
            if k > 0 {
                assert(ancestor(m, x, k) == ancestor(m, p, (k - 1) as nat));
                lemma_ancestor_step(m, p, (k - 1) as nat);
            } else {
                assert(ancestor(m, p, 0) == Some(p));
            }
        },
        None => {},
    }
}

/// Once a chain has ended it stays ended.
pub proof fn lemma_ended_stays_ended(m: Map<u64, Option<u64>>, x: u64, k: nat, j: nat)
    requires
        ancestor(m, x, k) is None,
        k <= j,
    ensures
        ancestor(m, x, j) is None,
    decreases j - k,
{
    if k < j {
        lemma_ancestor_step(m, x, k);
        lemma_ended_stays_ended(m, x, k + 1, j);
    }
}

/// Changing the parent of `c` does not change chains that do not reach `c`.
proof fn lemma_ancestor_unchanged(m: Map<u64, Option<u64>>, c: u64, v: Option<u64>, x: u64, n: nat)
    requires
        forall|k: nat| k < n ==> #[trigger] ancestor(m, x, k) != Some(c),
    ensures
        ancestor(m.insert(c, v), x, n) == ancestor(m, x, n),
    decreases n,
{
    if n > 0 {
        assert(ancestor(m, x, 0) != Some(c));
        let m2 = m.insert(c, v);
        assert(parent_in(m2, x) == parent_in(m, x));
        match parent_in(m, x) {
            Some(y) => {
                assert forall|k: nat| k < (n - 1) as nat implies #[trigger] ancestor(m, y, k) != Some(c) by {
                    assert(ancestor(m, x, k + 1) == ancestor(m, y, k));
                }
                lemma_ancestor_unchanged(m, c, v, y, (n - 1) as nat);
            },
            None => {},
        }
    }
}

/// After giving `c` the parent `v`, chains that ended before still end,
/// provided the chain from the new parent ends.
proof fn lemma_chain_ends_after(m: Map<u64, Option<u64>>, c: u64, v: Option<u64>, x: u64, n: nat)
    requires
        ancestor(m, x, n) is None,
        match v {
            Some(q) => chain_ends(m.insert(c, v), q),
            None => true,
        },
    ensures
        chain_ends(m.insert(c, v), x),
    decreases n,
{
    let m2 = m.insert(c, v);
    if x == c {
        assert(parent_in(m2, c) == v);
        match v {
            Some(q) => {
                let k = choose|k: nat| #[trigger] ancestor(m2, q, k) is None;
                assert(ancestor(m2, c, k + 1) == ancestor(m2, q, k));
                assert(ancestor(m2, c, k + 1) is None);
            },
            None => {
                assert(ancestor(m2, c, 1) is None);
            },
        }
    } else {
        assert(parent_in(m2, x) == parent_in(m, x));
        match parent_in(m, x) {
            Some(y) => {
                assert(n > 0);
                assert(ancestor(m, x, n) == ancestor(m, y, (n - 1) as nat));
                lemma_chain_ends_after(m, c, v, y, (n - 1) as nat);
                let k = choose|k: nat| #[trigger] ancestor(m2, y, k) is None;
                assert(ancestor(m2, x, k + 1) == ancestor(m2, y, k));
                assert(ancestor(m2, x, k + 1) is None);
            },
            None => {
                assert(ancestor(m2, x, 1) is None);
            },
        }
    }
}

/// Law: a reparent that the editor accepts never creates a cycle in a
/// structure without cycles.
pub proof fn lemma_reparent_keeps_acyclic(m: Map<u64, Option<u64>>, child: u64, new_parent: Option<u64>)
    requires
        acyclic(m),
        reparent_allowed(m, child, new_parent),
    ensures
        acyclic(after_reparent(m, child, detach_target(m, child), new_parent)),
{
    let after = after_reparent(m, child, detach_target(m, child), new_parent);
    match new_parent {
        Some(p) => {
            let v = Some(p);
            let m2 = m.insert(child, v);
            assert(chain_ends(m, p));
            let n0 = choose|n: nat| #[trigger] ancestor(m, p, n) is None;
            assert forall|k: nat| k < n0 implies #[trigger] ancestor(m, p, k) != Some(child) by {
                if ancestor(m, p, k) == Some(child) {
                    assert(within_subtree(m, child, p));
                }
            }
            lemma_ancestor_unchanged(m, child, v, p, n0);
            assert(ancestor(m2, p, n0) is None);
            assert(chain_ends(m2, p));
            assert forall|x: u64| #[trigger] chain_ends(after, x) by {
                assert(chain_ends(m, x));
                let n = choose|n: nat| #[trigger] ancestor(m, x, n) is None;
                lemma_chain_ends_after(m, child, v, x, n);
            }
        },
        None => {
            assert forall|x: u64| #[trigger] chain_ends(after, x) by {
                assert(chain_ends(m, x));
                let n = choose|n: nat| #[trigger] ancestor(m, x, n) is None;
                if detach_target(m, child) is Some {
                    lemma_chain_ends_after(m, child, None, x, n);
                } else {
                    assert(after == m);
                }
            }
        },
    }
}

/// Equal entities on a chain have equal successors: the chain repeats
/// from there on.
proof fn lemma_chain_shift(m: Map<u64, Option<u64>>, e: u64, a: nat, b: nat, j: nat)
    requires
        ancestor(m, e, a) == ancestor(m, e, b),
    ensures
        ancestor(m, e, a + j) == ancestor(m, e, b + j),
    decreases j,
{
    if j > 0 {
        let j1 = (j - 1) as nat;
        lemma_chain_shift(m, e, a, b, j1);
        lemma_ancestor_step(m, e, a + j1);
        lemma_ancestor_step(m, e, b + j1);
        assert(a + j1 + 1 == a + j && b + j1 + 1 == b + j);
    }
}

/// On a chain that repeats between positions `a < b`, every entity of the
/// chain already occurs before position `b`.
proof fn lemma_chain_repeats(m: Map<u64, Option<u64>>, e: u64, a: nat, b: nat, k: nat)
    requires
        a < b,
        ancestor(m, e, a) == ancestor(m, e, b),
    ensures
        exists|j: nat| j < b && #[trigger] ancestor(m, e, j) == ancestor(m, e, k),
    decreases k,
{
    if k < b {
        assert(ancestor(m, e, k) == ancestor(m, e, k));
    } else {
        let j = (k - b) as nat;
        lemma_chain_shift(m, e, a, b, j);
        assert(b + j == k);
        let k2 = (a + j) as nat;
        lemma_chain_repeats(m, e, a, b, k2);
    }
}

/// `n + 1` chain positions that all lie in a map with `n` keys hold some
/// entity twice.
proof fn lemma_chain_pigeonhole(m: Map<u64, Option<u64>>, e: u64, n: nat)
    requires
        m.dom().finite(),
        m.dom().len() == n,
        forall|k: nat| k <= n ==> (#[trigger] ancestor(m, e, k)) is Some && m.contains_key(
            ancestor(m, e, k)->0,
        ),
    ensures
        exists|a: nat, b: nat| a < b <= n && #[trigger] ancestor(m, e, a) == #[trigger] ancestor(m, e, b),
{
    let s = Seq::new(n + 1, |k: int| ancestor(m, e, k as nat)->0);
    assert forall|x: u64| s.to_set().contains(x) implies m.dom().contains(x) by {
        let k = choose|k: int| 0 <= k < s.len() && s[k] == x;
        assert(ancestor(m, e, k as nat) is Some);
    }
    vstd::set_lib::lemma_len_subset(s.to_set(), m.dom());
    if s.no_duplicates() {
        s.unique_seq_to_set();
        assert(false);
    }
    let (i, j) = choose|i: int, j: int| 0 <= i < s.len() && 0 <= j < s.len() && i != j && s[i] == s[j];
    let (a, b) = if i < j { (i as nat, j as nat) } else { (j as nat, i as nat) };
    assert(ancestor(m, e, a) is Some && ancestor(m, e, b) is Some);
    assert(ancestor(m, e, a) == ancestor(m, e, b));
}

/// Going `a` steps up and then `b` more is going `a + b` steps up.
proof fn lemma_ancestor_compose(m: Map<u64, Option<u64>>, x: u64, a: nat, b: nat, y: u64)
    requires
        ancestor(m, x, a) == Some(y),
    ensures
        ancestor(m, x, a + b) == ancestor(m, y, b),
    decreases a,
{
    if a > 0 {
        match parent_in(m, x) {
            Some(z) => {
                assert(ancestor(m, x, a) == ancestor(m, z, (a - 1) as nat));
                lemma_ancestor_compose(m, z, (a - 1) as nat, b, y);
                assert(ancestor(m, x, a + b) == ancestor(m, z, (a + b - 1) as nat));
            },
            None => {},
        }
    }
}

/// If the chain from `x` comes back to `x` after `c` steps, it does so after
/// every multiple of `c` steps.
proof fn lemma_ancestor_loop(m: Map<u64, Option<u64>>, x: u64, c: nat, k: nat)
    requires
        ancestor(m, x, c) == Some(x),
    ensures
        ancestor(m, x, k * c) == Some(x),
    decreases k,
{
    if k == 0 {
        assert(k * c == 0) by (nonlinear_arith) requires k == 0;
    } else {
        let k1 = (k - 1) as nat;
        lemma_ancestor_loop(m, x, c, k1);
        lemma_ancestor_compose(m, x, k1 * c, c, x);
        assert(k1 * c + c == k * c) by (nonlinear_arith) requires k1 + 1 == k;
    }
}

/// Law: in a structure without cycles, an entity's ancestor never lies in
/// that entity's own subtree.
pub proof fn lemma_ancestor_not_below(m: Map<u64, Option<u64>>, child: u64, p: u64)
    requires
        acyclic(m),
        p != child,
        within_subtree(m, p, child),
    ensures
        !within_subtree(m, child, p),
{
    if within_subtree(m, child, p) {
        let a = choose|a: nat| #[trigger] ancestor(m, child, a) == Some(p);
        let b = choose|b: nat| #[trigger] ancestor(m, p, b) == Some(child);
        assert(a != 0);
        lemma_ancestor_compose(m, child, a, b, p);
        let c = a + b;
        assert(ancestor(m, child, c) == Some(child));
        assert(chain_ends(m, child));
        let n = choose|n: nat| #[trigger] ancestor(m, child, n) is None;
        lemma_ancestor_loop(m, child, c, n);
        assert(n <= n * c) by (nonlinear_arith) requires c >= 1;
        lemma_ended_stays_ended(m, child, n, n * c);
    }
}

/// Law: moving an existing entity under any other existing entity outside
/// its own subtree is accepted, and so is detaching it to the root level.
pub proof fn lemma_reparent_accepts_outside_subtree(m: Map<u64, Option<u64>>, child: u64, p: u64)
    requires
        m.contains_key(child),
        m.contains_key(p),
        p != child,
        !within_subtree(m, child, p),
    ensures
        reparent_allowed(m, child, Some(p)),
        reparent_allowed(m, child, None),
{
}

/// Law: in a structure without cycles, moving an entity up under one of
/// its own ancestors (its grandparent, say) is accepted.
pub proof fn lemma_reparent_accepts_ancestor(m: Map<u64, Option<u64>>, child: u64, p: u64)
    requires
        acyclic(m),
        m.contains_key(child),
        m.contains_key(p),
        p != child,
        within_subtree(m, p, child),
    ensures
        reparent_allowed(m, child, Some(p)),
{
    lemma_ancestor_not_below(m, child, p);
}

/// Law: an entity lies in its parent's subtree and in every subtree that
/// holds its parent; a root entity lies only in its own subtree.
pub proof fn lemma_subtree_steps(m: Map<u64, Option<u64>>, root: u64, x: u64)
    ensures
        parent_in(m, x) matches Some(p) ==> within_subtree(m, p, x),
        parent_in(m, x) matches Some(p) ==> (within_subtree(m, root, p) ==> within_subtree(m, root, x)),
        parent_in(m, x) is None && root != x ==> !within_subtree(m, root, x),
{
    match parent_in(m, x) {
        Some(p) => {
            assert(ancestor(m, p, 0) == Some(p));
            assert(ancestor(m, x, 1) == ancestor(m, p, 0));
            if within_subtree(m, root, p) {
                let k = choose|k: nat| #[trigger] ancestor(m, p, k) == Some(root);
                assert(ancestor(m, x, k + 1) == ancestor(m, p, k));
            }
        },
        None => {
            if within_subtree(m, root, x) {
                let k = choose|k: nat| #[trigger] ancestor(m, x, k) == Some(root);
                assert(ancestor(m, x, 0) == Some(x));
                if k > 0 {
                    assert(ancestor(m, x, k) is None);
                }
            }
        },
    }
}

/// Law: every entity lies in its own subtree.
pub proof fn lemma_within_own_subtree(m: Map<u64, Option<u64>>, e: u64)
    ensures
        within_subtree(m, e, e),
{
    assert(ancestor(m, e, 0) == Some(e));
}

/// Law: an entity never becomes a child of itself or of anything below it.
pub proof fn lemma_reparent_refuses_own_subtree(m: Map<u64, Option<u64>>, child: u64, p: u64)
    requires
        within_subtree(m, child, p),
    ensures
        !reparent_allowed(m, child, Some(p)),
{
}

/// The parent structure of the scene: each entity that exists, with the
/// parent it records.
pub struct SceneGraph {
    parents: HashMap<u64, Option<u64>>,
}

impl View for SceneGraph {
    type V = Map<u64, Option<u64>>;

    closed spec fn view(&self) -> Map<u64, Option<u64>> {
        self.parents@
    }
}

impl SceneGraph {
    /// A structure with no entities.
    pub fn new() -> (r: SceneGraph)
        ensures
            r@ == Map::<u64, Option<u64>>::empty(),
    {
        SceneGraph { parents: HashMap::new() }
    }

    /// Records that `id` exists with the given parent.
    pub fn insert(&mut self, id: u64, parent: Option<u64>)
        ensures
            final(self)@ == old(self)@.insert(id, parent),
    {
        self.parents.insert(id, parent);
    }

    /// Whether `id` exists.
    pub fn contains(&self, id: u64) -> (r: bool)
        ensures
            r == self@.contains_key(id),
    {
        self.parents.contains_key(&id)
    }

    /// The parent of `id` (`None` for a root or an entity that does not exist).
    pub fn parent(&self, id: u64) -> (r: Option<u64>)
        ensures
            r == parent_in(self@, id),
    {
        match self.parents.get(&id) {
            Some(p) => *p,
            None => None,
        }
    }

    /// True if `entity` is inside the subtree rooted at `root` (or is
    /// `root`). The parent chain is followed until it ends, meets `root`, or
    /// has visited more entities than exist (then it runs round a cycle that
    /// holds no new entity).
    pub fn in_subtree(&self, root: u64, entity: u64) -> (r: bool)
        ensures
            r == within_subtree(self@, root, entity),
    {
        let n = self.parents.len();
        let mut current = entity;
        if current == root {
            assert(ancestor(self@, entity, 0) == Some(root));
            return true;
        }
        let mut i: usize = 0;
        while i < n
            invariant
                n == self@.dom().len(),
                self@.dom().finite(),
                i <= n,
                ancestor(self@, entity, i as nat) == Some(current),
                forall|k: nat| k <= i ==> #[trigger] ancestor(self@, entity, k) != Some(root),
                forall|k: nat|
                    k < i ==> (#[trigger] ancestor(self@, entity, k)) is Some && self@.contains_key(
                        ancestor(self@, entity, k)->0,
                    ),
            decreases n - i,
        {
            proof {
                lemma_ancestor_step(self@, entity, i as nat);
            }
            match self.parent(current) {
                Some(p) => {
                    current = p;
                    if current == root {
                        assert(ancestor(self@, entity, (i + 1) as nat) == Some(root));
                        return true;
                    }
                },
                None => {
                    assert forall|k: nat| #[trigger] ancestor(self@, entity, k) != Some(root) by {
                        if k > i {
                            lemma_ended_stays_ended(self@, entity, (i + 1) as nat, k);
                        }
                    }
                    return false;
                },
            }
            i = i + 1;
        }
        proof {
            lemma_ancestor_step(self@, entity, n as nat);
            if parent_in(self@, current) is None {
                assert forall|k: nat| #[trigger] ancestor(self@, entity, k) != Some(root) by {
                    if k > n {
                        lemma_ended_stays_ended(self@, entity, (n + 1) as nat, k);
                    }
                }
            } else {
                lemma_chain_pigeonhole(self@, entity, n as nat);
                let (a, b) = choose|a: nat, b: nat|
                    a < b <= n && #[trigger] ancestor(self@, entity, a) == #[trigger] ancestor(self@, entity, b);
                assert forall|k: nat| #[trigger] ancestor(self@, entity, k) != Some(root) by {
                    lemma_chain_repeats(self@, entity, a, b, k);
                }
            }
        }
        false
    }

    /// Whether moving `child` under `new_parent` (or to the root level) is
    /// accepted: the child exists and, for a new parent, the parent exists,
    /// is not the child and is not inside the child's subtree.
    pub fn reparent_allowed(&self, child: u64, new_parent: Option<u64>) -> (r: bool)
        ensures
            r == reparent_allowed(self@, child, new_parent),
    {
        if !self.contains(child) {
            return false;
        }
        match new_parent {
            Some(p) => p != child && self.contains(p) && !self.in_subtree(child, p),
            None => true,
        }
    }

    /// The current parent of `child` that it must be detached from, if that
    /// parent still exists.
    pub fn detach_target(&self, child: u64) -> (r: Option<u64>)
        ensures
            r == detach_target(self@, child),
    {
        match self.parent(child) {
            Some(o) => if self.contains(o) {
                Some(o)
            } else {
                None
            },
            None => None,
        }
    }

    /// Detaches `child` from `detach_from` and attaches it to `attach_to`,
    /// as the world does for a reparent.
    pub fn apply_reparent(&mut self, child: u64, detach_from: Option<u64>, attach_to: Option<u64>)
        ensures
            final(self)@ == after_reparent(old(self)@, child, detach_from, attach_to),
    {
        match attach_to {
            Some(p) => {
                self.parents.insert(child, Some(p));
            },
            None => {
                if detach_from.is_some() {
                    self.parents.insert(child, None);
                }
            },
        }
    }
}

} // verus!
