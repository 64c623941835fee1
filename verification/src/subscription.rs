//! Cancellation handles, composable into a tree.

use vstd::prelude::*;
use crate::observable::IntoShared;

verus! {

/// A cancellation handle. `unsubscribe` is idempotent: once the handle is
/// closed it stays closed, and a second call changes nothing at all.
///
/// Each implementation states the rest of its teardown effect (a cleanup
/// action fired, an inner handle cascaded into) with its own `unsub_ens`
/// relation.
pub trait SubscriptionLike: Sized {
    /// The implementation's internal well-formedness.
    spec fn sub_inv(&self) -> bool;

    /// Whether this handle has been cancelled.
    spec fn closed(&self) -> bool;

    /// The exact effect of the first `unsubscribe`.
    spec fn unsub_ens(&self, post: &Self) -> bool;

    /// Cancel. Repeated calls are no-ops after the first.
    fn unsubscribe(&mut self)
        requires
            old(self).sub_inv(),
        ensures
            final(self).sub_inv(),
            final(self).closed(),
            old(self).closed() ==> *final(self) == *old(self),
            old(self).unsub_ens(final(self)),
    ;

    /// Whether this handle has been cancelled.
    fn is_closed(&self) -> (r: bool)
        requires
            self.sub_inv(),
        ensures
            r == self.closed(),
    ;
}

/// One `unsubscribe` call, as the trait contract describes it.
pub open spec fn unsub_step<U: SubscriptionLike>(pre: U, post: U) -> bool {
    &&& post.sub_inv()
    &&& post.closed()
    &&& (pre.closed() ==> post == pre)
    &&& pre.unsub_ens(&post)
}

/// Idempotent unsubscribe, stated for every cancellation handle: calling
/// `unsubscribe` twice leaves the handle exactly as one call left it, so the
/// second call has no externally observable effect (in particular, no
/// cleanup action can run a second time).
pub proof fn lemma_unsubscribe_idempotent<U: SubscriptionLike>(s0: U, s1: U, s2: U)
    requires
        unsub_step(s0, s1),
        unsub_step(s1, s2),
    ensures
        s2 == s1,
{
}

/// The plainest cancellation handle: a closed/open flag with no attached
/// teardown effect.
#[derive(Clone, Copy)]
pub struct LocalSubscription {
    pub stopped: bool,
}

impl LocalSubscription {
    pub fn new() -> (r: LocalSubscription)
        ensures
            r.sub_inv(),
            !r.closed(),
    {
        LocalSubscription { stopped: false }
    }
}

impl SubscriptionLike for LocalSubscription {
    open spec fn sub_inv(&self) -> bool {
        true
    }

    open spec fn closed(&self) -> bool {
        self.stopped
    }

    open spec fn unsub_ens(&self, post: &Self) -> bool {
        true
    }

    fn unsubscribe(&mut self) {
        self.stopped = true;
    }

    fn is_closed(&self) -> bool {
        self.stopped
    }
}

impl IntoShared for LocalSubscription {
    type Shared = LocalSubscription;

    open spec fn into_shared_ens(&self, r: &Self::Shared) -> bool {
        *r == *self
    }

    fn to_shared(self) -> Self::Shared {
        self
    }
}

/// One node of a cancellation tree: a closed/open flag and the node's
/// children, in registration order.
pub struct SubNode {
    pub closed: bool,
    pub children: Vec<usize>,
}

/// A cancellation tree held as an arena: a node's identity is its index,
/// and every edge points from a node to a higher index, so no node can ever
/// become its own descendant.
///
/// Closing a node closes all of its descendants, never an ancestor, and once
/// closed a node stays closed.
pub struct SubscriptionTree {
    pub nodes: Vec<SubNode>,
}

/// Well-formedness of one node: edges go up in index (no cycles), children
/// are registered at most once (identity-checked insertion), and a closed
/// node has no open children.
pub open spec fn node_wf(nodes: Seq<SubNode>, i: int) -> bool {
    &&& forall|k: int|
        0 <= k < nodes[i].children@.len() ==> i < #[trigger] nodes[i].children@[k] < nodes.len()
    &&& forall|k1: int, k2: int|
        0 <= k1 < k2 < nodes[i].children@.len() ==> #[trigger] nodes[i].children@[k1]
            != #[trigger] nodes[i].children@[k2]
    &&& (nodes[i].closed ==> forall|k: int|
        0 <= k < nodes[i].children@.len() ==> nodes[#[trigger] nodes[i].children@[k] as int].closed)
}

/// Whether `j` lies in the subtree rooted at `root` (including `root`
/// itself).
pub open spec fn in_subtree(nodes: Seq<SubNode>, root: int, j: int) -> bool
    decreases nodes.len() - root,
{
    if 0 <= root < nodes.len() {
        ||| j == root
        ||| exists|k: int|
            0 <= k < nodes[root].children@.len() && root < #[trigger] nodes[root].children@[k]
                < nodes.len() && in_subtree(nodes, nodes[root].children@[k] as int, j)
    } else {
        false
    }
}

impl SubscriptionTree {
    pub open spec fn wf(&self) -> bool {
        forall|i: int| 0 <= i < self.nodes@.len() ==> #[trigger] node_wf(self.nodes@, i)
    }

    pub open spec fn len(&self) -> nat {
        self.nodes@.len()
    }

    pub open spec fn node_closed(&self, i: int) -> bool {
        self.nodes@[i].closed
    }

    pub fn new() -> (r: SubscriptionTree)
        ensures
            r.wf(),
            r.len() == 0,
    {
        SubscriptionTree { nodes: Vec::new() }
    }

    /// Register a fresh, open subscription and hand back its identity.
    pub fn fresh(&mut self) -> (id: usize)
        requires
            old(self).wf(),
        ensures
            final(self).wf(),
            id == old(self).len(),
            final(self).len() == old(self).len() + 1,
            !final(self).node_closed(id as int),
            final(self).nodes@[id as int].children@ == Seq::<usize>::empty(),
            forall|j: int| 0 <= j < old(self).len() ==> final(self).nodes@[j] == old(self).nodes@[j],
    {
        let id = self.nodes.len();
        self.nodes.push(SubNode { closed: false, children: Vec::new() });
        proof {
            assert forall|i: int| 0 <= i < self.nodes@.len() implies #[trigger] node_wf(
                self.nodes@,
                i,
            ) by {
                if i < id {
                    assert(node_wf(old(self).nodes@, i));
                }
            }
        }
        id
    }

    pub fn is_closed(&self, id: usize) -> (r: bool)
        requires
            self.wf(),
            id < self.len(),
        ensures
            r == self.node_closed(id as int),
    {
        self.nodes[id].closed
    }

    /// Cancel the subscription `id`: close every node of its subtree,
    /// children in registration order before the node itself, and nothing
    /// else. Idempotent: closing an already-closed node changes nothing.
    #[verifier::loop_isolation(false)]
    pub fn unsubscribe(&mut self, id: usize)
        requires
            old(self).wf(),
            id < old(self).len(),
        ensures
            final(self).wf(),
            final(self).len() == old(self).len(),
            forall|j: int|
                0 <= j < old(self).len() ==> final(self).nodes@[j].children
                    == old(self).nodes@[j].children,
            forall|j: int|
                0 <= j < old(self).len() ==> (final(self).node_closed(j) <==> (
                old(self).node_closed(j) || in_subtree(old(self).nodes@, id as int, j))),
            old(self).node_closed(id as int) ==> *final(self) == *old(self),
        decreases old(self).nodes@.len() - id,
    {
        if self.nodes[id].closed {
            proof {
                assert forall|j: int|
                    0 <= j < old(self).len() && in_subtree(old(self).nodes@, id as int, j) implies
                old(self).node_closed(j) by {
                    lemma_closed_subtree(old(self).nodes@, id as int, j);
                }
            }
        } else {
            let n = self.nodes[id].children.len();
            let mut k: usize = 0;
            while k < n
                invariant
                    self.wf(),
                    self.len() == old(self).len(),
                    id < self.len(),
                    k <= n,
                    n == self.nodes@[id as int].children@.len(),
                    !old(self).node_closed(id as int),
                    forall|j: int|
                        0 <= j < old(self).len() ==> self.nodes@[j].children
                            == old(self).nodes@[j].children,
                    forall|j: int|
                        0 <= j < old(self).len() ==> (self.node_closed(j) <==> (
                        old(self).node_closed(j) || exists|k2: int|
                            0 <= k2 < k && in_subtree(
                                old(self).nodes@,
                                #[trigger] old(self).nodes@[id as int].children@[k2] as int,
                                j,
                            ))),
                decreases n - k,
            {
                let c = self.nodes[id].children[k];
                proof {
                    assert(node_wf(old(self).nodes@, id as int));
                    assert(old(self).nodes@[id as int].children@[k as int] == c);
                }
                let ghost pre_loop = *self;
                self.unsubscribe(c);
                proof {
                    assert forall|j: int| 0 <= j < old(self).len() implies (self.node_closed(j)
                        <==> (old(self).node_closed(j) || exists|k2: int|
                        0 <= k2 < k + 1 && in_subtree(
                            old(self).nodes@,
                            #[trigger] old(self).nodes@[id as int].children@[k2] as int,
                            j,
                        ))) by {
                        lemma_in_subtree_same_children(
                            pre_loop.nodes@,
                            old(self).nodes@,
                            c as int,
                            j,
                        );
                        if self.node_closed(j) {
                            if !pre_loop.node_closed(j) {
                                assert(in_subtree(old(self).nodes@, c as int, j));
                                assert(old(self).nodes@[id as int].children@[k as int] == c);
                            }
                        } else {
                            assert(!pre_loop.node_closed(j));
                        }
                    }
                }
                k += 1;
            }
            proof {
                assert forall|j: int|
                    0 <= j < old(self).len() && self.node_closed(j) implies j != id by {
                    if j == id {
                        let k2 = choose|k2: int|
                            0 <= k2 < n && in_subtree(
                                old(self).nodes@,
                                #[trigger] old(self).nodes@[id as int].children@[k2] as int,
                                j,
                            );
                        assert(node_wf(old(self).nodes@, id as int));
                        lemma_subtree_ge(
                            old(self).nodes@,
                            old(self).nodes@[id as int].children@[k2] as int,
                            j,
                        );
                    }
                }
            }
            let ghost pre_mark = *self;
            self.nodes[id].closed = true;
            proof {
                assert(self.nodes@ =~= pre_mark.nodes@.update(
                    id as int,
                    SubNode {
                        closed: true,
                        children: pre_mark.nodes@[id as int].children,
                    },
                ));
                assert forall|i: int| 0 <= i < self.nodes@.len() implies #[trigger] node_wf(
                    self.nodes@,
                    i,
                ) by {
                    assert(node_wf(pre_mark.nodes@, i));
                    if i == id {
                        assert forall|k2: int|
                            0 <= k2 < self.nodes@[i].children@.len() implies self.nodes@[#[trigger] self.nodes@[i].children@[k2] as int].closed by {
                            assert(node_wf(old(self).nodes@, id as int));
                            let c = old(self).nodes@[id as int].children@[k2] as int;
                            assert(self.nodes@[i].children@[k2] as int == c);
                            assert(id < c < old(self).len());
                            assert(in_subtree(old(self).nodes@, c, c));
                            assert(0 <= k2 < n && in_subtree(
                                old(self).nodes@,
                                old(self).nodes@[id as int].children@[k2] as int,
                                c,
                            ));
                            assert(pre_mark.node_closed(c));
                        }
                    }
                }
                assert forall|j: int| 0 <= j < old(self).len() implies (self.node_closed(j) <==> (
                old(self).node_closed(j) || in_subtree(old(self).nodes@, id as int, j))) by {
                    if j == id {
                        assert(in_subtree(old(self).nodes@, id as int, id as int));
                    } else {
                        assert(self.node_closed(j) == pre_mark.node_closed(j));
                        assert(node_wf(old(self).nodes@, id as int));
                        if in_subtree(old(self).nodes@, id as int, j) {
                            let k2 = choose|k2: int|
                                0 <= k2 < old(self).nodes@[id as int].children@.len() && id
                                    < #[trigger] old(self).nodes@[id as int].children@[k2]
                                    < old(self).nodes@.len() && in_subtree(
                                    old(self).nodes@,
                                    old(self).nodes@[id as int].children@[k2] as int,
                                    j,
                                );
                            assert(pre_mark.node_closed(j));
                        }
                        if pre_mark.node_closed(j) && !old(self).node_closed(j) {
                            let k2 = choose|k2: int|
                                0 <= k2 < n && in_subtree(
                                    old(self).nodes@,
                                    #[trigger] old(self).nodes@[id as int].children@[k2] as int,
                                    j,
                                );
                            assert(in_subtree(old(self).nodes@, id as int, j));
                        }
                    }
                }
            }
        }
    }

    /// Register `child` under `parent`, identity-checked: a child already
    /// present is not registered twice, and registering under a closed
    /// parent immediately closes the child instead (no open child may dangle
    /// under a closed parent). A subscription is created after its parent,
    /// so it can never be registered as its own ancestor.
    #[verifier::loop_isolation(false)]
    pub fn add(&mut self, parent: usize, child: usize)
        requires
            old(self).wf(),
            parent < child < old(self).len(),
        ensures
            final(self).wf(),
            final(self).len() == old(self).len(),
            old(self).node_closed(parent as int) ==> {
                &&& forall|j: int|
                    0 <= j < old(self).len() ==> final(self).nodes@[j].children == old(
                        self,
                    ).nodes@[j].children
                &&& forall|j: int|
                    0 <= j < old(self).len() ==> (final(self).node_closed(j) <==> (
                    old(self).node_closed(j) || in_subtree(old(self).nodes@, child as int, j)))
            },
            !old(self).node_closed(parent as int)
                && old(self).nodes@[parent as int].children@.contains(child) ==> *final(self)
                == *old(self),
            !old(self).node_closed(parent as int) && !old(self).nodes@[
                parent as int
            ].children@.contains(child) ==> {
                &&& final(self).nodes@[parent as int].children@ == old(self).nodes@[
                    parent as int
                ].children@.push(child)
                &&& forall|j: int|
                    0 <= j < old(self).len() && j != parent ==> final(self).nodes@[j] == old(
                        self,
                    ).nodes@[j]
                &&& forall|j: int|
                    0 <= j < old(self).len() ==> final(self).node_closed(j) == old(
                        self,
                    ).node_closed(j)
            },
    {
        if self.nodes[parent].closed {
            self.unsubscribe(child);
            return ;
        }
        let n = self.nodes[parent].children.len();
        let mut k: usize = 0;
        while k < n
            invariant
                *self == *old(self),
                parent < child < self.len(),
                k <= n,
                n == self.nodes@[parent as int].children@.len(),
                forall|k2: int|
                    0 <= k2 < k ==> #[trigger] self.nodes@[parent as int].children@[k2] != child,
            decreases n - k,
        {
            if self.nodes[parent].children[k] == child {
                return ;
            }
            k += 1;
        }
        let ghost pre = *self;
        self.nodes[parent].children.push(child);
        proof {
            assert(!pre.nodes@[parent as int].children@.contains(child));
            assert(self.nodes@ =~= pre.nodes@.update(
                parent as int,
                SubNode {
                    closed: pre.nodes@[parent as int].closed,
                    children: self.nodes@[parent as int].children,
                },
            ));
            assert forall|i: int| 0 <= i < self.nodes@.len() implies #[trigger] node_wf(
                self.nodes@,
                i,
            ) by {
                assert(node_wf(pre.nodes@, i));
                if i == parent {
                    let cs = self.nodes@[i].children@;
                    let pcs = pre.nodes@[i].children@;
                    assert(cs =~= pcs.push(child));
                    assert forall|k1: int, k2: int| 0 <= k1 < k2 < cs.len() implies #[trigger] cs[k1]
                        != #[trigger] cs[k2] by {
                        if k2 == cs.len() - 1 {
                            assert(pcs[k1] != child);
                        }
                    }
                }
            }
        }
    }
}

/// `in_subtree` looks only at the edges, never at the closed flags.
pub proof fn lemma_in_subtree_same_children(
    a: Seq<SubNode>,
    b: Seq<SubNode>,
    root: int,
    j: int,
)
    requires
        a.len() == b.len(),
        forall|i: int| 0 <= i < a.len() ==> a[i].children == #[trigger] b[i].children,
    ensures
        in_subtree(a, root, j) == in_subtree(b, root, j),
    decreases a.len() - root,
{
    if 0 <= root < a.len() {
        assert forall|k: int|
            0 <= k < a[root].children@.len() && root < #[trigger] a[root].children@[k]
                < a.len() implies (in_subtree(a, a[root].children@[k] as int, j) == in_subtree(
            b,
            b[root].children@[k] as int,
            j,
        )) by {
            lemma_in_subtree_same_children(a, b, a[root].children@[k] as int, j);
        }
        assert(a[root].children == b[root].children);
    }
}

/// In a well-formed tree every member of a closed node's subtree is closed.
pub proof fn lemma_closed_subtree(nodes: Seq<SubNode>, root: int, j: int)
    requires
        forall|i: int| 0 <= i < nodes.len() ==> #[trigger] node_wf(nodes, i),
        0 <= root < nodes.len(),
        nodes[root].closed,
        in_subtree(nodes, root, j),
    ensures
        nodes[j].closed,
    decreases nodes.len() - root,
{
    if j != root {
        let k = choose|k: int|
            0 <= k < nodes[root].children@.len() && root < #[trigger] nodes[root].children@[k]
                < nodes.len() && in_subtree(nodes, nodes[root].children@[k] as int, j);
        assert(node_wf(nodes, root));
        assert(nodes[nodes[root].children@[k] as int].closed);
        lemma_closed_subtree(nodes, nodes[root].children@[k] as int, j);
    }
}

/// Edges only point upward in index, so a subtree only holds indices at or
/// above its root: no node is its own descendant.
pub proof fn lemma_subtree_ge(nodes: Seq<SubNode>, root: int, j: int)
    requires
        in_subtree(nodes, root, j),
    ensures
        j >= root,
    decreases nodes.len() - root,
{
    if j != root {
        let k = choose|k: int|
            0 <= k < nodes[root].children@.len() && root < #[trigger] nodes[root].children@[k]
                < nodes.len() && in_subtree(nodes, nodes[root].children@[k] as int, j);
        lemma_subtree_ge(nodes, nodes[root].children@[k] as int, j);
    }
}

} // verus!
