//! Intrusive singly linked FIFO queue.
//!
//! Nodes live in an arena; a node is named by its index there, and its `next` field links
//! it to the following node of the queue.

use vstd::prelude::*;

verus! {

/// A queue link.
#[derive(Clone, Copy, Debug, PartialEq, Eq, Structural)]
pub struct QueueNode {
    pub next: Option<usize>,
}

impl QueueNode {
    /// A node that links to nothing.
    pub fn new() -> (r: Self)
        ensures
            r.next is None,
    {
        QueueNode { next: None }
    }
}

/// A FIFO queue of nodes.
pub struct QueueList {
    head: Option<usize>,
    tail: Option<usize>,
    order: Ghost<Seq<usize>>,
}

impl QueueList {
    /// The queued nodes, front first.
    pub closed spec fn view(&self) -> Seq<usize> {
        self.order@
    }

    /// The links stored in `nodes` chain the queued nodes from head to tail.
    pub closed spec fn wf(&self, nodes: Seq<QueueNode>) -> bool {
        let q = self.order@;
        &&& forall|i: int| 0 <= i < q.len() ==> #[trigger] q[i] < nodes.len()
        &&& forall|i: int, j: int| 0 <= i < j < q.len() ==> q[i] != q[j]
        &&& self.head == if q.len() == 0 { None } else { Some(q[0]) }
        &&& self.tail == if q.len() == 0 { None } else { Some(q[q.len() - 1]) }
        &&& forall|i: int| 0 <= i < q.len() - 1 ==> nodes[#[trigger] q[i] as int].next == Some(q[i + 1])
        &&& q.len() > 0 ==> nodes[q[q.len() - 1] as int].next is None
    }

    /// An empty queue.
    pub fn new() -> (r: Self)
        ensures
            r@ == Seq::<usize>::empty(),
            forall|nodes: Seq<QueueNode>| r.wf(nodes),
    {
        QueueList { head: None, tail: None, order: Ghost(Seq::empty()) }
    }

    /// Whether the queue is empty.
    pub fn is_empty(&self) -> (r: bool)
        requires
            exists|nodes: Seq<QueueNode>| self.wf(nodes),
        ensures
            r == (self@.len() == 0),
    {
        self.head.is_none()
    }

    /// Appends `node` at the back of the queue.
    pub fn enqueue(&mut self, nodes: &mut Vec<QueueNode>, node: usize)
        requires
            old(self).wf(old(nodes)@),
            node < old(nodes)@.len(),
            !old(self)@.contains(node),
        ensures
            final(self)@ == old(self)@.push(node),
            final(self).wf(final(nodes)@),
            final(nodes)@.len() == old(nodes)@.len(),
            forall|i: int| 0 <= i < old(nodes)@.len() && i != node && !(old(self)@.len() > 0 && i == old(self)@.last()) ==> final(nodes)@[i] == old(nodes)@[i],
    {
        nodes.set(node, QueueNode { next: None });
        match self.tail {
            Some(tail) => {
                nodes.set(tail, QueueNode { next: Some(node) });
            },
            None => {
                self.head = Some(node);
            },
        }
        self.tail = Some(node);
        let ghost q = old(self)@;
        self.order = Ghost(q.push(node));
        proof {
            let q2 = self.order@;
            assert forall|i: int| 0 <= i < q2.len() - 1 implies nodes@[#[trigger] q2[i] as int].next == Some(q2[i + 1]) by {
                if i < q.len() - 1 {
                    assert(q2[i] == q[i]);
                    assert(q[i] != q[q.len() - 1]);
                    assert(q[i] != node);
                }
            }
            assert forall|i: int, j: int| 0 <= i < j < q2.len() implies q2[i] != q2[j] by {
                if j == q.len() {
                    assert(q.contains(q2[i]));
                }
            }
        }
    }

    /// Removes and returns the front node, or `None` when the queue is empty. The links
    /// are left as they are.
    pub fn dequeue(&mut self, nodes: &Vec<QueueNode>) -> (r: Option<usize>)
        requires
            old(self).wf(nodes@),
        ensures
            old(self)@.len() == 0 ==> r is None && final(self)@ == old(self)@,
            old(self)@.len() > 0 ==> r == Some(old(self)@[0]) && final(self)@ == old(self)@.drop_first(),
            final(self).wf(nodes@),
    {
        let node = match self.head {
            Some(n) => n,
            None => {
                return None;
            },
        };
        self.head = nodes[node].next;
        if self.head.is_none() {
            self.tail = None;
        }
        let ghost q = old(self)@;
        self.order = Ghost(q.drop_first());
        proof {
            let q2 = self.order@;
            if q.len() > 1 {
                assert(nodes@[q[0] as int].next == Some(q[1]));
            }
            assert forall|i: int| 0 <= i < q2.len() - 1 implies nodes@[#[trigger] q2[i] as int].next == Some(q2[i + 1]) by {
                assert(q2[i] == q[i + 1]);
            }
        }
        Some(node)
    }
}

/// First in, first out: enqueuing `x` and then dequeuing yields the front of the old queue
/// (or `x` itself when the queue was empty), and leaves the rest of the old queue followed
/// by `x`.
pub proof fn lemma_fifo(q: Seq<usize>, x: usize)
    ensures
        q.push(x)[0] == if q.len() == 0 { x } else { q[0] },
        q.push(x).drop_first() == if q.len() == 0 { Seq::<usize>::empty() } else { q.drop_first().push(x) },
{
    if q.len() == 0 {
        assert(q.push(x).drop_first() =~= Seq::<usize>::empty());
    } else {
        assert(q.push(x).drop_first() =~= q.drop_first().push(x));
    }
}

} // verus!
