//! The plan for duplicating an entity subtree: which entities are copied,
//! in which order, and under which copy each one goes.

use vstd::prelude::*;
use std::collections::{HashMap, HashSet};

verus! {

broadcast use vstd::std_specs::hash::group_hash_axioms;

/// The children lists of the scene, in the order the engine keeps them.
pub struct ChildLists {
    lists: HashMap<u64, Vec<u64>>,
}

impl View for ChildLists {
    type V = Map<u64, Seq<u64>>;

    closed spec fn view(&self) -> Map<u64, Seq<u64>> {
        self.lists@.map_values(|v: Vec<u64>| v@)
    }
}

/// The children of `x` (none when `x` has no list).
pub open spec fn children_of(ch: Map<u64, Seq<u64>>, x: u64) -> Seq<u64> {
    if ch.contains_key(x) {
        ch[x]
    } else {
        Seq::empty()
    }
}

/// `path` starts at `s` and goes from each entity to one of its children.
pub open spec fn is_child_path(ch: Map<u64, Seq<u64>>, s: u64, path: Seq<u64>) -> bool {
    &&& path.len() >= 1
    &&& path[0] == s
    &&& forall|i: int| 0 <= i < path.len() - 1 ==> children_of(ch, #[trigger] path[i]).contains(path[i + 1])
}

/// `x` lies in the subtree of `s` along the children lists.
pub open spec fn below(ch: Map<u64, Seq<u64>>, s: u64, x: u64) -> bool {
    exists|path: Seq<u64>| #[trigger] is_child_path(ch, s, path) && path.last() == x
}

/// One entity to copy: its source and, except for the first, the step whose
/// copy becomes its parent.
#[derive(Clone, Copy, Debug, PartialEq, Eq, Structural)]
pub struct CopyStep {
    pub source: u64,
    pub parent_step: Option<usize>,
}

/// Some step of `steps` copies `x`.
pub open spec fn is_copied(steps: Seq<CopyStep>, x: u64) -> bool {
    exists|i: int| 0 <= i < steps.len() && #[trigger] steps[i].source == x
}

/// A copy plan for `source` mirrors its subtree: the source comes first
/// without a parent step; every later step's parent step comes earlier and
/// its source lists this step's source as a child; no entity is copied
/// twice; and exactly the entities of the subtree are copied.
pub open spec fn mirrors_subtree(ch: Map<u64, Seq<u64>>, source: u64, steps: Seq<CopyStep>) -> bool {
    &&& steps.len() >= 1
    &&& steps[0] == CopyStep { source, parent_step: None }
    &&& forall|i: int|
        0 < i < steps.len() ==> match (#[trigger] steps[i]).parent_step {
            Some(p) => p < i && children_of(ch, steps[p as int].source).contains(steps[i].source),
            None => false,
        }
    &&& forall|i: int, j: int| 0 <= i < j < steps.len() ==> #[trigger] steps[i].source != #[trigger] steps[j].source
    &&& forall|x: u64| #[trigger] is_copied(steps, x) <==> below(ch, source, x)
}

proof fn lemma_path_extend(ch: Map<u64, Seq<u64>>, s: u64, path: Seq<u64>, c: u64)
    requires
        is_child_path(ch, s, path),
        children_of(ch, path.last()).contains(c),
    ensures
        is_child_path(ch, s, path.push(c)),
        path.push(c).last() == c,
{
    let p2 = path.push(c);
    assert forall|i: int| 0 <= i < p2.len() - 1 implies children_of(ch, #[trigger] p2[i]).contains(p2[i + 1]) by {
        if i < path.len() - 1 {
            assert(p2[i] == path[i] && p2[i + 1] == path[i + 1]);
        } else {
            assert(p2[i] == path.last());
        }
    }
}

proof fn lemma_closed_holds_path(ch: Map<u64, Seq<u64>>, vis: Set<u64>, s: u64, path: Seq<u64>)
    requires
        vis.contains(s),
        forall|x: u64, c: u64| vis.contains(x) && #[trigger] children_of(ch, x).contains(c) ==> vis.contains(c),
        is_child_path(ch, s, path),
    ensures
        vis.contains(path.last()),
    decreases path.len(),
{
    if path.len() > 1 {
        let q = path.drop_last();
        assert forall|i: int| 0 <= i < q.len() - 1 implies children_of(ch, #[trigger] q[i]).contains(q[i + 1]) by {
            assert(q[i] == path[i] && q[i + 1] == path[i + 1]);
        }
        lemma_closed_holds_path(ch, vis, s, q);
        let k = path.len() - 2;
        assert(children_of(ch, path[k]).contains(path[k + 1]));
        assert(q.last() == path[k]);
    }
}

impl ChildLists {
    /// No children lists.
    pub fn new() -> (r: ChildLists)
        ensures
            r@ == Map::<u64, Seq<u64>>::empty(),
    {
        let r = ChildLists { lists: HashMap::new() };
        assert(r@ =~= Map::<u64, Seq<u64>>::empty());
        r
    }

    /// Records the children of `parent`, in order.
    pub fn insert(&mut self, parent: u64, children: Vec<u64>)
        ensures
            final(self)@ == old(self)@.insert(parent, children@),
    {
        self.lists.insert(parent, children);
        assert(self@ =~= old(self)@.insert(parent, children@));
    }

    /// The children of `x`, when it has a list.
    fn children(&self, x: u64) -> (r: Option<&Vec<u64>>)
        ensures
            match r {
                Some(v) => v@ == children_of(self@, x),
                None => children_of(self@, x) == Seq::<u64>::empty(),
            },
    {
        self.lists.get(&x)
    }
}

/// Pushes `(c, step)` for every child `c` of `x`, last child first, so that
/// taking from the end of the stack yields the children in list order.
fn push_children(tree: &ChildLists, x: u64, step: usize, stack: &mut Vec<(u64, usize)>)
    ensures
        final(stack)@.len() == old(stack)@.len() + children_of(tree@, x).len(),
        forall|k: int| 0 <= k < old(stack)@.len() ==> final(stack)@[k] == old(stack)@[k],
        forall|k: int|
            old(stack)@.len() <= k < final(stack)@.len() ==> (#[trigger] final(stack)@[k]).1 == step
                && children_of(tree@, x).contains(final(stack)@[k].0),
        forall|c: u64|
            #[trigger] children_of(tree@, x).contains(c) ==> exists|k: int|
                old(stack)@.len() <= k < final(stack)@.len() && (#[trigger] final(stack)@[k]).0 == c,
{
    match tree.children(x) {
        None => {},
        Some(list) => {
            let ghost start = stack@;
            let mut j = list.len();
            while j > 0
                invariant
                    j <= list@.len(),
                    list@ == children_of(tree@, x),
                    stack@.len() == start.len() + (list@.len() - j),
                    forall|k: int| 0 <= k < start.len() ==> stack@[k] == start[k],
                    forall|k: int|
                        start.len() <= k < stack@.len() ==> (#[trigger] stack@[k]).1 == step
                            && stack@[k].0 == list@[list@.len() - 1 - (k - start.len())],
                decreases j,
            {
                j = j - 1;
                stack.push((list[j], step));
            }
            assert forall|k: int|
                start.len() <= k < stack@.len() implies (#[trigger] stack@[k]).1 == step
                && children_of(tree@, x).contains(stack@[k].0) by {
                let m = list@.len() - 1 - (k - start.len());
                assert(list@[m] == stack@[k].0);
            }
            assert forall|c: u64| #[trigger] children_of(tree@, x).contains(c) implies exists|k: int|
                start.len() <= k < stack@.len() && (#[trigger] stack@[k]).0 == c by {
                let m = choose|m: int| 0 <= m < list@.len() && list@[m] == c;
                let k = start.len() + (list@.len() - 1 - m);
                assert(stack@[k].0 == c);
            }
        },
    }
}

/// The copy plan for duplicating the subtree of `source`: a depth-first
/// walk that copies each entity before its children, with children in list
/// order; an entity met a second time (which a well-formed hierarchy never
/// has) is not copied again.
pub fn duplicate_plan(tree: &ChildLists, source: u64) -> (steps: Vec<CopyStep>)
    ensures
        mirrors_subtree(tree@, source, steps@),
{
    let ghost ch = tree@;
    assert(tree.lists@.dom().finite());
    assert(ch.dom() =~= tree.lists@.dom());
    let mut steps: Vec<CopyStep> = Vec::new();
    let mut visited: HashSet<u64> = HashSet::new();
    let mut stack: Vec<(u64, usize)> = Vec::new();
    steps.push(CopyStep { source, parent_step: None });
    visited.insert(source);
    push_children(tree, source, 0, &mut stack);
    proof {
        assert(steps@[0].source == source);
        assert(is_copied(steps@, source));
        assert forall|x: u64| visited@.contains(x) <==> #[trigger] is_copied(steps@, x) by {
            if is_copied(steps@, x) {
                let i = choose|i: int| 0 <= i < steps@.len() && #[trigger] steps@[i].source == x;
                assert(i == 0);
            }
        }
        let path = seq![source];
        assert(is_child_path(ch, source, path));
        assert(below(ch, source, steps@[0].source));
    }
    while stack.len() > 0
        invariant
            ch == tree@,
            ch.dom().finite(),
            steps@.len() >= 1,
            steps@[0] == (CopyStep { source, parent_step: None }),
            forall|x: u64| visited@.contains(x) <==> #[trigger] is_copied(steps@, x),
            forall|i: int|
                0 < i < steps@.len() ==> match (#[trigger] steps@[i]).parent_step {
                    Some(p) => p < i && children_of(ch, steps@[p as int].source).contains(steps@[i].source),
                    None => false,
                },
            forall|i: int, j: int|
                0 <= i < j < steps@.len() ==> #[trigger] steps@[i].source != #[trigger] steps@[j].source,
            forall|k: int|
                0 <= k < stack@.len() ==> (#[trigger] stack@[k]).1 < steps@.len() && children_of(
                    ch,
                    steps@[stack@[k].1 as int].source,
                ).contains(stack@[k].0),
            forall|i: int, c: u64|
                0 <= i < steps@.len() && #[trigger] children_of(ch, steps@[i].source).contains(c)
                    ==> visited@.contains(c) || exists|k: int| 0 <= k < stack@.len() && (#[trigger] stack@[k]).0 == c,
            forall|i: int| 0 <= i < steps@.len() ==> below(ch, source, #[trigger] steps@[i].source),
        decreases ch.dom().difference(visited@).len(), stack@.len(),
    {
        let ghost old_steps = steps@;
        let ghost old_stack = stack@;
        let ghost old_visited = visited@;
        let (x, p) = stack.pop().unwrap();
        assert(old_stack[old_stack.len() - 1] == (x, p));
        assert(stack@ =~= old_stack.drop_last());
        if visited.contains(&x) {
            assert forall|i: int, c: u64|
                0 <= i < steps@.len() && #[trigger] children_of(ch, steps@[i].source).contains(c)
                    implies visited@.contains(c) || exists|k: int| 0 <= k < stack@.len() && (#[trigger] stack@[k]).0 == c by {
                if !visited@.contains(c) {
                    let k = choose|k: int| 0 <= k < old_stack.len() && (#[trigger] old_stack[k]).0 == c;
                    assert(k != old_stack.len() - 1);
                    assert(stack@[k] == old_stack[k]);
                }
            }
        } else {
            let idx = steps.len();
            steps.push(CopyStep { source: x, parent_step: Some(p) });
            visited.insert(x);
            let ghost mid_stack = stack@;
            push_children(tree, x, idx, &mut stack);
            proof {
                assert(steps@[idx as int].source == x);
                assert forall|y: u64| visited@.contains(y) <==> #[trigger] is_copied(steps@, y) by {
                    if is_copied(old_steps, y) {
                        let i = choose|i: int| 0 <= i < old_steps.len() && #[trigger] old_steps[i].source == y;
                        assert(steps@[i] == old_steps[i]);
                    }
                    if is_copied(steps@, y) {
                        let i = choose|i: int| 0 <= i < steps@.len() && #[trigger] steps@[i].source == y;
                        if i < old_steps.len() {
                            assert(steps@[i] == old_steps[i]);
                            assert(is_copied(old_steps, y));
                        }
                    }
                }
                assert forall|i: int|
                    0 < i < steps@.len() implies match (#[trigger] steps@[i]).parent_step {
                        Some(q) => q < i && children_of(ch, steps@[q as int].source).contains(steps@[i].source),
                        None => false,
                    } by {
                    if i < old_steps.len() {
                        assert(steps@[i] == old_steps[i]);
                        let q = old_steps[i].parent_step->0;
                        assert(steps@[q as int] == old_steps[q as int]);
                    } else {
                        assert(steps@[p as int] == old_steps[p as int]);
                    }
                }
                assert forall|i: int, j: int|
                    0 <= i < j < steps@.len() implies #[trigger] steps@[i].source != #[trigger] steps@[j].source by {
                    assert(steps@[i] == old_steps[i] || i == old_steps.len());
                    if j == old_steps.len() {
                        assert(steps@[i] == old_steps[i]);
                        if old_steps[i].source == x {
                            assert(is_copied(old_steps, x));
                        }
                    } else {
                        assert(steps@[i] == old_steps[i] && steps@[j] == old_steps[j]);
                    }
                }
                assert forall|k: int|
                    0 <= k < stack@.len() implies (#[trigger] stack@[k]).1 < steps@.len() && children_of(
                        ch,
                        steps@[stack@[k].1 as int].source,
                    ).contains(stack@[k].0) by {
                    if k < mid_stack.len() {
                        assert(stack@[k] == mid_stack[k]);
                        assert(mid_stack[k] == old_stack[k]);
                        assert(steps@[old_stack[k].1 as int] == old_steps[old_stack[k].1 as int]);
                    }
                }
                assert forall|i: int, c: u64|
                    0 <= i < steps@.len() && #[trigger] children_of(ch, steps@[i].source).contains(c)
                        implies visited@.contains(c) || exists|k: int| 0 <= k < stack@.len() && (#[trigger] stack@[k]).0 == c by {
                    if i == old_steps.len() {
                        assert(children_of(ch, x).contains(c));
                    } else if !visited@.contains(c) {
                        assert(steps@[i] == old_steps[i]);
                        assert(!old_visited.contains(c));
                        let k = choose|k: int| 0 <= k < old_stack.len() && (#[trigger] old_stack[k]).0 == c;
                        assert(k != old_stack.len() - 1);
                        assert(stack@[k] == mid_stack[k]);
                    }
                }
                let q = steps@[p as int].source;
                assert(steps@[p as int] == old_steps[p as int]);
                assert(below(ch, source, q));
                let path = choose|path: Seq<u64>| #[trigger] is_child_path(ch, source, path) && path.last() == q;
                lemma_path_extend(ch, source, path, x);
                assert forall|i: int| 0 <= i < steps@.len() implies below(ch, source, #[trigger] steps@[i].source) by {
                    if i < old_steps.len() {
                        assert(steps@[i] == old_steps[i]);
                    } else {
                        assert(is_child_path(ch, source, path.push(x)));
                    }
                }
                // The measure goes down.
                let d0 = ch.dom().difference(old_visited);
                let d1 = ch.dom().difference(visited@);
                if ch.dom().contains(x) {
                    assert(d1 =~= d0.remove(x));
                    assert(d0.contains(x));
                } else {
                    assert(d1 =~= d0);
                    assert(children_of(ch, x).len() == 0);
                }
            }
        }
    }
    proof {
        let vis = visited@;
        assert forall|y: u64, c: u64| vis.contains(y) && #[trigger] children_of(ch, y).contains(c) implies vis.contains(c) by {
            assert(is_copied(steps@, y));
            let i = choose|i: int| 0 <= i < steps@.len() && #[trigger] steps@[i].source == y;
            assert(children_of(ch, steps@[i].source).contains(c));
        }
        assert forall|y: u64| #[trigger] is_copied(steps@, y) <==> below(ch, source, y) by {
            if is_copied(steps@, y) {
                let i = choose|i: int| 0 <= i < steps@.len() && #[trigger] steps@[i].source == y;
                assert(below(ch, source, steps@[i].source));
            }
            if below(ch, source, y) {
                let path = choose|path: Seq<u64>| #[trigger] is_child_path(ch, source, path) && path.last() == y;
                assert(steps@[0].source == source);
                assert(is_copied(steps@, source));
                lemma_closed_holds_path(ch, vis, source, path);
            }
        }
    }
    steps
}

} // verus!
