use vstd::prelude::*;
use vstd::laws_eq::obeys_concrete_eq;
use crate::machine::Machine;

verus! {

/// A machine with unlimited linear undo and redo over (state, context)
/// snapshots.
///
/// A new transition after an undo keeps the redo stack: a later redo may
/// return to a branch that the current sequence of actions no longer reaches.
pub struct HistoryMachine<A, S, C, FS, FC> {
    /// The wrapped machine.
    pub machine: Machine<A, S, C, FS, FC>,
    /// Snapshots taken before each transition, oldest first.
    pub past: Vec<(S, C)>,
    /// Snapshots left by undo, most recently undone last.
    pub future: Vec<(S, C)>,
}

impl<A: Copy, S: Eq + Copy, C: Copy, FS: Fn(C, A, S) -> S, FC: Fn(C, A, S) -> C> HistoryMachine<
    A,
    S,
    C,
    FS,
    FC,
> {
    /// The state and context of the wrapped machine.
    pub open spec fn snapshot(&self) -> (S, C) {
        (self.machine.value, self.machine.context)
    }

    /// `m` with its state and context taken from `snap`.
    pub open spec fn restored(m: Machine<A, S, C, FS, FC>, snap: (S, C)) -> Machine<
        A,
        S,
        C,
        FS,
        FC,
    > {
        Machine { value: snap.0, context: snap.1, ..m }
    }

    /// `after` is `before` once it has handled `action`: the old snapshot is
    /// on top of the past, and the machine took one step.
    pub open spec fn transitioned(before: Self, after: Self, action: A) -> bool {
        &&& after.past@ == before.past@.push(before.snapshot())
        &&& after.future@ == before.future@
        &&& after.machine == before.machine.stepped(action)
    }

    /// `after` is `before` once undone: nothing changes with an empty past;
    /// otherwise the top of the past is restored and the current snapshot
    /// goes on top of the future.
    pub open spec fn undone(before: Self, after: Self) -> bool {
        if before.past@.len() == 0 {
            after == before
        } else {
            &&& after.past@ == before.past@.drop_last()
            &&& after.future@ == before.future@.push(before.snapshot())
            &&& after.machine == Self::restored(before.machine, before.past@.last())
        }
    }

    /// `after` is `before` once redone: the mirror image of `undone`.
    pub open spec fn redone(before: Self, after: Self) -> bool {
        if before.future@.len() == 0 {
            after == before
        } else {
            &&& after.future@ == before.future@.drop_last()
            &&& after.past@ == before.past@.push(before.snapshot())
            &&& after.machine == Self::restored(before.machine, before.future@.last())
        }
    }

    /// Wraps `machine` with empty past and future.
    pub fn new(machine: Machine<A, S, C, FS, FC>) -> (h: Self)
        ensures
            h.machine == machine,
            h.past@ == Seq::<(S, C)>::empty(),
            h.future@ == Seq::<(S, C)>::empty(),
    {
        HistoryMachine { machine, future: Vec::new(), past: Vec::new() }
    }

    /// Records the current snapshot, then lets the machine handle `action`.
    pub fn transition(&mut self, action: &A)
        requires
            old(self).machine.wf(),
            obeys_concrete_eq::<S>(),
        ensures
            Self::transitioned(*old(self), *final(self), *action),
            old(self).machine.answers(*action),
            final(self).machine.wf(),
    {
        self.past.push((self.machine.value, self.machine.context));
        self.machine.transition(action);
    }

    /// Returns to the snapshot taken before the latest transition that is
    /// not undone yet; does nothing when there is none.
    pub fn undo(&mut self)
        ensures
            Self::undone(*old(self), *final(self)),
    {
        if self.past.len() > 0 {
            if let Some((state, context)) = self.past.pop() {
                self.future.push((self.machine.value, self.machine.context));
                self.machine.set_state(state);
                self.machine.set_context(context);
            }
        }
    }

    /// Takes back the latest undo; does nothing when there is none.
    pub fn redo(&mut self)
        ensures
            Self::redone(*old(self), *final(self)),
    {
        if self.future.len() > 0 {
            if let Some((state, context)) = self.future.pop() {
                self.past.push((self.machine.value, self.machine.context));
                self.machine.set_state(state);
                self.machine.set_context(context);
            }
        }
    }
}

/// Undo after a transition returns to the state and context from just before
/// it, whatever came earlier; a redo right after that returns to the state
/// and context from just after it.
pub proof fn lemma_undo_redo_round_trip<A: Copy, S: Eq + Copy, C: Copy, FS: Fn(C, A, S) -> S, FC: Fn(C, A, S) -> C>(
    h0: HistoryMachine<A, S, C, FS, FC>,
    h1: HistoryMachine<A, S, C, FS, FC>,
    h2: HistoryMachine<A, S, C, FS, FC>,
    h3: HistoryMachine<A, S, C, FS, FC>,
    action: A,
)
    requires
        HistoryMachine::transitioned(h0, h1, action),
        HistoryMachine::undone(h1, h2),
        HistoryMachine::redone(h2, h3),
    ensures
        h2.snapshot() == h0.snapshot(),
        h3.snapshot() == h1.snapshot(),
        h3.machine == h1.machine,
{
}

} // verus!
