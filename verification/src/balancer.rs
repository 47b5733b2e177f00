//! The task balancer: a pure scheduler over a list of nodes.
//!
//! A task may run only on nodes its affinity predicate accepts; among the
//! eligible nodes the balancer picks one with the smallest queue, breaking
//! queue-length ties by the greatest priority. Ties under both keys are
//! broken arbitrarily; callers must not rely on which of two equal nodes
//! is picked.

use vstd::prelude::*;

verus! {

/// The key tasks are balanced by: queue length ascending, then priority
/// descending.
#[derive(PartialEq, Eq, Structural, Clone, Copy, Debug)]
pub struct SortingPriority {
    pub queue_length: usize,
    pub priority: usize,
}

impl SortingPriority {
    /// `self` is picked no later than `other` under the balancing order.
    pub open spec fn spec_le(self, other: Self) -> bool {
        self.queue_length < other.queue_length || (self.queue_length == other.queue_length
            && self.priority >= other.priority)
    }
}

impl PartialOrd for SortingPriority {
    fn partial_cmp(&self, other: &Self) -> (r: Option<core::cmp::Ordering>) {
        if self.queue_length < other.queue_length {
            Some(core::cmp::Ordering::Less)
        } else if self.queue_length > other.queue_length {
            Some(core::cmp::Ordering::Greater)
        } else if self.priority > other.priority {
            Some(core::cmp::Ordering::Less)
        } else if self.priority < other.priority {
            Some(core::cmp::Ordering::Greater)
        } else {
            Some(core::cmp::Ordering::Equal)
        }
    }
}

impl vstd::std_specs::cmp::PartialOrdSpecImpl for SortingPriority {
    open spec fn obeys_partial_cmp_spec() -> bool {
        true
    }

    open spec fn partial_cmp_spec(&self, other: &Self) -> Option<core::cmp::Ordering> {
        if self.queue_length < other.queue_length {
            Some(core::cmp::Ordering::Less)
        } else if self.queue_length > other.queue_length {
            Some(core::cmp::Ordering::Greater)
        } else if self.priority > other.priority {
            Some(core::cmp::Ordering::Less)
        } else if self.priority < other.priority {
            Some(core::cmp::Ordering::Greater)
        } else {
            Some(core::cmp::Ordering::Equal)
        }
    }
}

/// A unit of work: where it may run.
pub trait Task {
    type NodeId;

    /// Where the work is allowed to run, by node identifier.
    spec fn spec_can_run(&self, node: Self::NodeId) -> bool;

    /// Decides `spec_can_run`.
    fn can_run(&self, node: Self::NodeId) -> (r: bool)
        ensures
            r == self.spec_can_run(node),
    ;
}

/// A node as the balancer sees it: an identifier, a queue depth, a
/// priority, and a way to hand it a task.
pub trait Node: Sized {
    type Id: Copy;

    type Task: Task<NodeId = Self::Id>;

    spec fn spec_queue_length(&self) -> usize;

    spec fn spec_priority(&self) -> usize;

    spec fn spec_id(&self) -> Self::Id;

    /// Hands the node a task: its queue grows by one, and its identity
    /// and priority stay what they were.
    fn send_task(&mut self, task: Self::Task)
        requires
            old(self).spec_queue_length() < usize::MAX,
        ensures
            final(self).spec_id() == old(self).spec_id(),
            final(self).spec_priority() == old(self).spec_priority(),
            final(self).spec_queue_length() == old(self).spec_queue_length() + 1,
    ;

    fn queue_length(&self) -> (r: usize)
        ensures
            r == self.spec_queue_length(),
    ;

    fn priority(&self) -> (r: usize)
        ensures
            r == self.spec_priority(),
    ;

    fn id(&self) -> (r: Self::Id)
        ensures
            r == self.spec_id(),
    ;

    /// The node's balancing key.
    fn sorting(&self) -> (r: SortingPriority)
        ensures
            r == (SortingPriority {
                queue_length: self.spec_queue_length(),
                priority: self.spec_priority(),
            }),
    {
        SortingPriority { queue_length: self.queue_length(), priority: self.priority() }
    }
}

/// A node's balancing key, in spec form.
pub open spec fn spec_sorting<N: Node>(n: N) -> SortingPriority {
    SortingPriority { queue_length: n.spec_queue_length(), priority: n.spec_priority() }
}

/// Whether the task may run on the node at index `i`.
pub open spec fn eligible<N: Node>(nodes: Seq<N>, task: N::Task, i: int) -> bool {
    0 <= i < nodes.len() && task.spec_can_run(nodes[i].spec_id())
}

/// The pure scheduler: routes each task to an eligible node minimizing
/// (queue length, -priority).
pub struct Balancer<N: Node> {
    nodes: Vec<N>,
}

impl<N: Node> Balancer<N> {
    /// The balanced nodes, in order.
    pub closed spec fn spec_nodes(&self) -> Seq<N> {
        self.nodes@
    }

    pub fn new(nodes: Vec<N>) -> (r: Self)
        ensures
            r.spec_nodes() == nodes@,
    {
        Balancer { nodes }
    }

    /// Takes the nodes back out of the balancer.
    pub fn into_nodes(self) -> (r: Vec<N>)
        ensures
            r@ == self.spec_nodes(),
    {
        self.nodes
    }

    /// Routes one task. On success, the chosen node is eligible, its
    /// balancing key is no later than every other eligible node's (its
    /// queue is no longer than theirs, and among equal queues its priority
    /// is no smaller), it received the task — same identity and priority,
    /// queue one longer — and no other node changed. When no node is
    /// eligible the task comes back.
    pub fn enqueue(&mut self, task: N::Task) -> (r: Result<(), N::Task>)
        requires
            forall|j: int|
                0 <= j < old(self).spec_nodes().len() ==> (#[trigger] old(
                    self,
                ).spec_nodes()[j]).spec_queue_length() < usize::MAX,
        ensures
            match r {
                Result::Ok(()) => exists|i: int|
                    {
                        &&& #[trigger] eligible(old(self).spec_nodes(), task, i)
                        &&& forall|j: int|
                            eligible(old(self).spec_nodes(), task, j) ==> spec_sorting(
                                old(self).spec_nodes()[i],
                            ).spec_le(spec_sorting(#[trigger] old(self).spec_nodes()[j]))
                        &&& final(self).spec_nodes().len() == old(self).spec_nodes().len()
                        &&& final(self).spec_nodes()[i].spec_id() == old(
                            self,
                        ).spec_nodes()[i].spec_id()
                        &&& final(self).spec_nodes()[i].spec_priority() == old(
                            self,
                        ).spec_nodes()[i].spec_priority()
                        &&& final(self).spec_nodes()[i].spec_queue_length() == old(
                            self,
                        ).spec_nodes()[i].spec_queue_length() + 1
                        &&& forall|j: int|
                            0 <= j < old(self).spec_nodes().len() && j != i
                                ==> final(self).spec_nodes()[j] == #[trigger] old(
                                self,
                            ).spec_nodes()[j]
                    },
                Result::Err(t) => {
                    &&& t == task
                    &&& *final(self) == *old(self)
                    &&& forall|j: int| !eligible(old(self).spec_nodes(), task, j)
                },
            },
    {
        let ghost ns = self.nodes@;
        let mut best: Option<usize> = None;
        let mut best_key = SortingPriority { queue_length: 0, priority: 0 };
        let mut i: usize = 0;
        while i < self.nodes.len()
            invariant
                i <= ns.len(),
                self.nodes@ == ns,
                *self == *old(self),
                match best {
                    Some(bi) => {
                        &&& bi < i
                        &&& eligible(ns, task, bi as int)
                        &&& best_key == spec_sorting(ns[bi as int])
                        &&& forall|j: int|
                            0 <= j < i && eligible(ns, task, j) ==> best_key.spec_le(spec_sorting(
                                #[trigger] ns[j],
                            ))
                    },
                    None => forall|j: int| 0 <= j < i ==> !eligible(ns, task, j),
                },
            decreases ns.len() - i,
        {
            if task.can_run(self.nodes[i].id()) {
                let key = self.nodes[i].sorting();
                let better = match best {
                    None => true,
                    Some(_) => key.queue_length < best_key.queue_length || (key.queue_length
                        == best_key.queue_length && key.priority > best_key.priority),
                };
                if better {
                    best = Some(i);
                    best_key = key;
                }
            }
            i = i + 1;
        }
        match best {
            Some(bi) => {
                proof {
                    assert(eligible(ns, task, bi as int));
                    assert(forall|j: int|
                        eligible(ns, task, j) ==> spec_sorting(ns[bi as int]).spec_le(spec_sorting(
                            #[trigger] ns[j],
                        )));
                    assert(old(self).spec_nodes()[bi as int].spec_queue_length() < usize::MAX);
                }
                self.nodes[bi].send_task(task);
                proof {
                    assert(eligible(old(self).spec_nodes(), task, bi as int));
                    assert(self.nodes@.len() == ns.len());
                    assert(forall|j: int|
                        0 <= j < ns.len() && j != bi as int ==> self.nodes@[j] == #[trigger] ns[j]);
                }
                Ok(())
            },
            None => Err(task),
        }
    }
}


/// A task that may run on a fixed list of node identifiers.
pub struct ListTask {
    pub can_run: Vec<usize>,
    pub id: usize,
}

impl Task for ListTask {
    type NodeId = usize;

    open spec fn spec_can_run(&self, node: usize) -> bool {
        self.can_run@.contains(node)
    }

    fn can_run(&self, node: usize) -> (r: bool) {
        let mut i: usize = 0;
        while i < self.can_run.len()
            invariant
                i <= self.can_run@.len(),
                forall|j: int| 0 <= j < i ==> self.can_run@[j] != node,
            decreases self.can_run@.len() - i,
        {
            if self.can_run[i] == node {
                return true;
            }
            i = i + 1;
        }
        false
    }
}

/// The simplest concrete node: it queues the identifiers of the tasks it
/// is handed.
pub struct QueueNode {
    pub id: usize,
    pub priority: usize,
    pub queue: Vec<usize>,
}

impl QueueNode {
    pub fn new(priority: usize, id: usize) -> (r: QueueNode)
        ensures
            r.id == id,
            r.priority == priority,
            r.queue@ == Seq::<usize>::empty(),
    {
        QueueNode { id, priority, queue: Vec::new() }
    }
}

impl Node for QueueNode {
    type Id = usize;

    type Task = ListTask;

    open spec fn spec_queue_length(&self) -> usize {
        self.queue@.len() as usize
    }

    open spec fn spec_priority(&self) -> usize {
        self.priority
    }

    open spec fn spec_id(&self) -> usize {
        self.id
    }

    fn send_task(&mut self, task: ListTask) {
        proof {
            vstd::std_specs::vec::axiom_spec_len(&self.queue);
        }
        self.queue.push(task.id);
        proof {
            vstd::std_specs::vec::axiom_spec_len(&self.queue);
        }
    }

    fn queue_length(&self) -> (r: usize) {
        self.queue.len()
    }

    fn priority(&self) -> (r: usize) {
        self.priority
    }

    fn id(&self) -> (r: usize) {
        self.id
    }
}

} // verus!
