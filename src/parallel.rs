use vstd::prelude::*;
use vstd::laws_eq::obeys_concrete_eq;
use crate::machine::Machine;

verus! {

/// Machines that run side by side on one stream of actions.
pub struct ParallelMachine<A, S, C, FS, FC> {
    /// Name of the composition.
    pub id: String,
    /// The sub-machines, in broadcast order.
    pub machines: Vec<Machine<A, S, C, FS, FC>>,
    /// The current state of each sub-machine, in the same order.
    pub value: Vec<S>,
}

/// The current state of each machine, in order.
pub open spec fn states_of<A, S, C, FS, FC>(machines: Seq<Machine<A, S, C, FS, FC>>) -> Seq<S> {
    machines.map_values(|m: Machine<A, S, C, FS, FC>| m.value)
}

impl<A: Copy, S: Eq + Copy, C: Copy, FS: Fn(C, A, S) -> S, FC: Fn(C, A, S) -> C> ParallelMachine<
    A,
    S,
    C,
    FS,
    FC,
> {
    pub open spec fn wf(&self) -> bool {
        forall|i: int| 0 <= i < self.machines@.len() ==> (#[trigger] self.machines@[i]).wf()
    }

    /// The composite value after a broadcast of `action`: each sub-machine's
    /// next state, computed from that sub-machine alone.
    pub open spec fn next_value(&self, action: A) -> Seq<S> {
        self.machines@.map_values(|m: Machine<A, S, C, FS, FC>| m.next(action).0)
    }

    fn read_states(machines: &Vec<Machine<A, S, C, FS, FC>>) -> (r: Vec<S>)
        ensures
            r@ == states_of(machines@),
    {
        let mut r: Vec<S> = Vec::new();
        let mut i: usize = 0;
        while i < machines.len()
            invariant
                i <= machines@.len(),
                r@ == states_of(machines@.take(i as int)),
            decreases machines@.len() - i,
        {
            r.push(machines[i].value);
            assert(machines@.take(i + 1) == machines@.take(i as int).push(machines@[i as int]));
            i = i + 1;
        }
        assert(machines@.take(i as int) == machines@);
        r
    }

    /// Takes ownership of `machines`; the composite value is their states.
    pub fn new(id: String, machines: Vec<Machine<A, S, C, FS, FC>>) -> (p: Self)
        ensures
            p.id == id,
            p.machines == machines,
            p.value@ == states_of(machines@),
    {
        let value = Self::read_states(&machines);
        ParallelMachine { id, machines, value }
    }

    /// Sends `action` to every sub-machine in order, then reads their states
    /// back into the composite value.
    pub fn transition(&mut self, action: &A)
        requires
            old(self).wf(),
            obeys_concrete_eq::<S>(),
        ensures
            final(self).wf(),
            final(self).id == old(self).id,
            final(self).machines@.len() == old(self).machines@.len(),
            forall|i: int|
                0 <= i < old(self).machines@.len() ==> {
                    &&& #[trigger] final(self).machines@[i] == old(self).machines@[i].stepped(*action)
                    &&& old(self).machines@[i].answers(*action)
                },
            final(self).value@ == old(self).next_value(*action),
            final(self).value@ == states_of(final(self).machines@),
    {
        let ghost before = self.machines@;
        let mut i: usize = 0;
        while i < self.machines.len()
            invariant
                obeys_concrete_eq::<S>(),
                i <= self.machines@.len(),
                self.id == old(self).id,
                self.machines@.len() == before.len(),
                forall|j: int| 0 <= j < before.len() ==> (#[trigger] before[j]).wf(),
                forall|j: int| 0 <= j < self.machines@.len() ==> (#[trigger] self.machines@[j]).wf(),
                forall|j: int| i <= j < before.len() ==> #[trigger] self.machines@[j] == before[j],
                forall|j: int|
                    0 <= j < i ==> {
                        &&& #[trigger] self.machines@[j] == before[j].stepped(*action)
                        &&& before[j].answers(*action)
                    },
            decreases self.machines@.len() - i,
        {
            self.machines[i].transition(action);
            i = i + 1;
        }
        self.value = Self::read_states(&self.machines);
        assert(self.value@ =~= before.map_values(|m: Machine<A, S, C, FS, FC>| m.next(*action).0));
    }
}

/// Sub-machines are independent: each component of the composite value after
/// a broadcast depends on its own sub-machine alone. So when only sub-machine
/// `k` reacts to `action`, only component `k` can change, and it becomes the
/// state that sub-machine steps to.
pub proof fn lemma_parallel_independence<A: Copy, S: Eq + Copy, C: Copy, FS: Fn(C, A, S) -> S, FC: Fn(C, A, S) -> C>(
    p: ParallelMachine<A, S, C, FS, FC>,
    action: A,
    k: int,
)
    requires
        0 <= k < p.machines@.len(),
        p.value@ == states_of(p.machines@),
        forall|j: int|
            0 <= j < p.machines@.len() && j != k ==> (#[trigger] p.machines@[j]).next(action).0
                == p.machines@[j].value,
    ensures
        p.next_value(action).len() == p.value@.len(),
        p.next_value(action)[k] == p.machines@[k].next(action).0,
        forall|j: int|
            0 <= j < p.value@.len() && j != k ==> #[trigger] p.next_value(action)[j] == p.value@[j],
{
}

} // verus!
