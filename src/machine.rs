use vstd::prelude::*;
use vstd::laws_eq::obeys_concrete_eq;
use std::marker::PhantomData;

verus! {

/// A hook is usable by the engine when it accepts every input and gives
/// exactly one result for each: a total, pure function.
pub open spec fn is_reducer<A, S, C, R, F: Fn(C, A, S) -> R>(f: F) -> bool {
    &&& forall|c: C, a: A, s: S| #[trigger] f.requires((c, a, s))
    &&& forall|c: C, a: A, s: S, r1: R, r2: R|
        #[trigger] f.ensures((c, a, s), r1) && #[trigger] f.ensures((c, a, s), r2) ==> r1 == r2
}

/// The result of running hook `f` on `(c, a, s)`.
pub open spec fn reduce<A, S, C, R, F: Fn(C, A, S) -> R>(f: F, c: C, a: A, s: S) -> R {
    choose|r: R| f.ensures((c, a, s), r)
}

/// A call of a pure hook returns exactly `reduce` of its arguments.
pub proof fn lemma_reduce<A, S, C, R, F: Fn(C, A, S) -> R>(f: F, c: C, a: A, s: S, r: R)
    requires
        is_reducer(f),
        f.ensures((c, a, s), r),
    ensures
        reduce(f, c, a, s) == r,
{
}

/// The context left by an optional context hook: unchanged when it is absent.
pub open spec fn run_context_hook<A, S, C, FC: Fn(C, A, S) -> C>(
    hook: Option<FC>,
    c: C,
    a: A,
    s: S,
) -> C {
    match hook {
        Some(f) => reduce(f, c, a, s),
        None => c,
    }
}

/// The state chosen by an optional `on` hook: unchanged when it is absent.
pub open spec fn run_state_hook<A, S, C, FS: Fn(C, A, S) -> S>(
    hook: Option<FS>,
    c: C,
    a: A,
    s: S,
) -> S {
    match hook {
        Some(f) => reduce(f, c, a, s),
        None => s,
    }
}

/// No state appears in two entries.
pub open spec fn keys_unique<S, T>(entries: Seq<(S, T)>) -> bool {
    forall|i: int, j: int|
        0 <= i < entries.len() && 0 <= j < entries.len() && #[trigger] entries[i].0
            == #[trigger] entries[j].0 ==> i == j
}

/// The map from state to transition that a list of entries describes.
pub open spec fn table_of<S, T>(entries: Seq<(S, T)>) -> Map<S, T> {
    Map::new(
        |k: S| exists|i: int| 0 <= i < entries.len() && entries[i].0 == k,
        |k: S| entries[choose|i: int| 0 <= i < entries.len() && entries[i].0 == k].1,
    )
}

/// An entry of a list with unique keys is what the table holds for its key.
pub proof fn lemma_table_entry<S, T>(entries: Seq<(S, T)>, i: int)
    requires
        keys_unique(entries),
        0 <= i < entries.len(),
    ensures
        table_of(entries).contains_key(entries[i].0),
        table_of(entries)[entries[i].0] == entries[i].1,
{
    let k = entries[i].0;
    assert(exists|j: int| 0 <= j < entries.len() && entries[j].0 == k);
    let j = choose|j: int| 0 <= j < entries.len() && entries[j].0 == k;
    assert(entries[j].0 == entries[i].0);
}

/// Replacing the entry of key `k` replaces its value in the table.
proof fn lemma_table_update<S, T>(entries: Seq<(S, T)>, i: int, t: T)
    requires
        keys_unique(entries),
        0 <= i < entries.len(),
    ensures
        keys_unique(entries.update(i, (entries[i].0, t))),
        table_of(entries.update(i, (entries[i].0, t))) == table_of(entries).insert(entries[i].0, t),
{
    let k = entries[i].0;
    let new = entries.update(i, (k, t));
    assert(keys_unique(new)) by {
        assert forall|a: int, b: int|
            0 <= a < new.len() && 0 <= b < new.len() && #[trigger] new[a].0
                == #[trigger] new[b].0 implies a == b by {
            assert(new[a].0 == entries[a].0);
            assert(new[b].0 == entries[b].0);
        }
    }
    lemma_table_entry(new, i);
    assert forall|key: S| #[trigger]
        table_of(new).contains_key(key) == table_of(entries).insert(k, t).contains_key(key) by {
        if table_of(entries).contains_key(key) {
            let j = choose|j: int| 0 <= j < entries.len() && entries[j].0 == key;
            assert(new[j].0 == key);
        }
        if table_of(new).contains_key(key) {
            let j = choose|j: int| 0 <= j < new.len() && new[j].0 == key;
            assert(entries[j].0 == key);
        }
    }
    assert forall|key: S| #[trigger] table_of(new).contains_key(key) implies table_of(new)[key]
        == table_of(entries).insert(k, t)[key] by {
        if key != k {
            let j = choose|j: int| 0 <= j < new.len() && new[j].0 == key;
            assert(j != i);
            assert(entries[j] == new[j]);
            lemma_table_entry(new, j);
            lemma_table_entry(entries, j);
        }
    }
    assert(table_of(new) =~= table_of(entries).insert(k, t));
}

/// Adding an entry of a new key adds it to the table.
proof fn lemma_table_push<S, T>(entries: Seq<(S, T)>, k: S, t: T)
    requires
        keys_unique(entries),
        !table_of(entries).contains_key(k),
    ensures
        keys_unique(entries.push((k, t))),
        table_of(entries.push((k, t))) == table_of(entries).insert(k, t),
{
    let new = entries.push((k, t));
    assert(keys_unique(new)) by {
        assert forall|a: int, b: int|
            0 <= a < new.len() && 0 <= b < new.len() && #[trigger] new[a].0
                == #[trigger] new[b].0 implies a == b by {
            if a < entries.len() && b == entries.len() {
                assert(entries[a].0 == k);
            }
            if b < entries.len() && a == entries.len() {
                assert(entries[b].0 == k);
            }
        }
    }
    lemma_table_entry(new, entries.len() as int);
    assert forall|key: S| #[trigger]
        table_of(new).contains_key(key) == table_of(entries).insert(k, t).contains_key(key) by {
        if table_of(entries).contains_key(key) {
            let j = choose|j: int| 0 <= j < entries.len() && entries[j].0 == key;
            assert(new[j].0 == key);
        }
        if table_of(new).contains_key(key) && key != k {
            let j = choose|j: int| 0 <= j < new.len() && new[j].0 == key;
            assert(j < entries.len());
            assert(entries[j].0 == key);
        }
    }
    assert forall|key: S| #[trigger] table_of(new).contains_key(key) implies table_of(new)[key]
        == table_of(entries).insert(k, t)[key] by {
        if key != k {
            let j = choose|j: int| 0 <= j < new.len() && new[j].0 == key;
            assert(j < entries.len());
            assert(entries[j] == new[j]);
            lemma_table_entry(new, j);
            lemma_table_entry(entries, j);
        }
    }
    assert(table_of(new) =~= table_of(entries).insert(k, t));
}

/// The hooks registered for one state.
///
/// Each hook receives `(context, action, state)`: `on` picks the next state,
/// `context` rewrites the context on every action handled in this state,
/// `on_entry` and `on_exit` rewrite it when a transition enters or leaves
/// this state. `final_state` is informational only.
pub struct Transition<FS, FC> {
    /// Picks the state to move to.
    pub on: Option<FS>,
    /// Runs when a transition enters this state from another one.
    pub on_entry: Option<FC>,
    /// Runs when a transition leaves this state for another one.
    pub on_exit: Option<FC>,
    /// Runs on every action handled while in this state, before `on`.
    pub context: Option<FC>,
    /// Marks a final state; the engine does not consult it.
    pub final_state: bool,
}

impl<FS, FC> Default for Transition<FS, FC> {
    fn default() -> (t: Self)
        ensures
            t.on is None,
            t.on_entry is None,
            t.on_exit is None,
            t.context is None,
            !t.final_state,
    {
        Transition { on: None, on_entry: None, on_exit: None, context: None, final_state: false }
    }
}

/// The table's value after `next` is entered: its `on_entry` hook, if any,
/// applied to context `c`.
pub open spec fn entered<A, S, C, FS: Fn(C, A, S) -> S, FC: Fn(C, A, S) -> C>(
    table: Map<S, Transition<FS, FC>>,
    c: C,
    a: A,
    next: S,
) -> C {
    if table.contains_key(next) {
        run_context_hook(table[next].on_entry, c, a, next)
    } else {
        c
    }
}

/// One step of the engine: the state and context after `action` is handled
/// in `state` with context `context`.
///
/// Without an entry for `state` nothing changes. Otherwise the context hook
/// runs first, then `on` sees the new context and picks the next state; only
/// when that differs from `state` do the entry hook of the new state and then
/// the exit hook of the old one run, both given the new state.
pub open spec fn step<A, S, C, FS: Fn(C, A, S) -> S, FC: Fn(C, A, S) -> C>(
    table: Map<S, Transition<FS, FC>>,
    state: S,
    context: C,
    action: A,
) -> (S, C) {
    if !table.contains_key(state) {
        (state, context)
    } else {
        let t = table[state];
        let c1 = run_context_hook(t.context, context, action, state);
        let next = run_state_hook(t.on, c1, action, state);
        if next == state {
            (state, c1)
        } else {
            (next, run_context_hook(t.on_exit, entered(table, c1, action, next), action, next))
        }
    }
}

/// Hook `hook`, if present, was called on `(c, a, s)` and answered with
/// `reduce` of those arguments.
pub open spec fn answered<A, S, C, R, F: Fn(C, A, S) -> R>(hook: Option<F>, c: C, a: A, s: S) -> bool {
    hook matches Some(f) ==> f.ensures((c, a, s), reduce(f, c, a, s))
}

/// Every hook that `step` consults was called on the arguments that `step`
/// gives it and answered with the value that `step` takes from it.
pub open spec fn step_answered<A, S, C, FS: Fn(C, A, S) -> S, FC: Fn(C, A, S) -> C>(
    table: Map<S, Transition<FS, FC>>,
    state: S,
    context: C,
    action: A,
) -> bool {
    table.contains_key(state) ==> {
        let t = table[state];
        let c1 = run_context_hook(t.context, context, action, state);
        let next = run_state_hook(t.on, c1, action, state);
        &&& answered(t.context, context, action, state)
        &&& answered(t.on, c1, action, state)
        &&& next != state ==> {
            &&& table.contains_key(next) ==> answered(table[next].on_entry, c1, action, next)
            &&& answered(t.on_exit, entered(table, c1, action, next), action, next)
        }
    }
}

/// A state machine: a current state, a context, and a table of transitions.
///
/// Hooks must be total, pure functions (see [`is_reducer`]), and states are
/// compared with `==`, which must be plain equality of values.
pub struct Machine<A, S, C, FS, FC> {
    /// Data that the hooks rewrite.
    pub context: C,
    /// Current state.
    pub value: S,
    /// Name of the machine.
    pub id: String,
    /// State the machine started in.
    pub initial: S,
    /// The transition of each state, in order of registration; no state twice.
    pub states: Vec<(S, Transition<FS, FC>)>,
    /// The machine handles actions of type `A`.
    pub actions: PhantomData<A>,
}

impl<A: Copy, S: Eq + Copy, C: Copy, FS: Fn(C, A, S) -> S, FC: Fn(C, A, S) -> C> Machine<
    A,
    S,
    C,
    FS,
    FC,
> {
    /// Every hook of `t` is a total, pure function.
    pub open spec fn valid_transition(t: Transition<FS, FC>) -> bool {
        &&& (t.on matches Some(f) ==> is_reducer(f))
        &&& (t.on_entry matches Some(f) ==> is_reducer(f))
        &&& (t.on_exit matches Some(f) ==> is_reducer(f))
        &&& (t.context matches Some(f) ==> is_reducer(f))
    }

    /// Well formed: no state is registered twice and every hook is a total,
    /// pure function.
    pub open spec fn wf(&self) -> bool {
        &&& keys_unique(self.states@)
        &&& forall|i: int|
            0 <= i < self.states@.len() ==> Self::valid_transition(#[trigger] self.states@[i].1)
    }

    /// The transition table as a map from state to transition.
    pub open spec fn table(&self) -> Map<S, Transition<FS, FC>> {
        table_of(self.states@)
    }

    /// The state and context after this machine handles `action`.
    pub open spec fn next(&self, action: A) -> (S, C) {
        step(self.table(), self.value, self.context, action)
    }

    /// This machine once it has handled `action`: only state and context change.
    pub open spec fn stepped(self, action: A) -> Self {
        Machine { value: self.next(action).0, context: self.next(action).1, ..self }
    }

    /// The hooks consulted in handling `action` answered as `next` has it.
    pub open spec fn answers(&self, action: A) -> bool {
        step_answered(self.table(), self.value, self.context, action)
    }

    /// A machine in state `initial` with `context`, and no transitions yet.
    pub fn new(id: String, initial: S, context: C) -> (m: Self)
        ensures
            m.wf(),
            m.id == id,
            m.initial == initial,
            m.value == initial,
            m.context == context,
            m.table() == Map::<S, Transition<FS, FC>>::empty(),
    {
        let m = Machine {
            context,
            value: initial,
            id,
            initial,
            states: Vec::new(),
            actions: PhantomData,
        };
        assert(m.table() =~= Map::<S, Transition<FS, FC>>::empty());
        m
    }

    /// Index of the entry for `state`, if there is one.
    fn find(&self, state: &S) -> (r: Option<usize>)
        requires
            obeys_concrete_eq::<S>(),
        ensures
            match r {
                Some(i) => i < self.states@.len() && self.states@[i as int].0 == *state,
                None => !self.table().contains_key(*state),
            },
    {
        let mut i: usize = 0;
        while i < self.states.len()
            invariant
                obeys_concrete_eq::<S>(),
                i <= self.states@.len(),
                forall|j: int| 0 <= j < i ==> self.states@[j].0 != *state,
            decreases self.states@.len() - i,
        {
            proof {
                reveal(obeys_concrete_eq);
            }
            if self.states[i].0 == *state {
                return Some(i);
            }
            i = i + 1;
        }
        None
    }

    /// Registers `state` for `state_name`, replacing any earlier one.
    pub fn add_state(&mut self, state_name: S, state: Transition<FS, FC>)
        requires
            old(self).wf(),
            obeys_concrete_eq::<S>(),
            Self::valid_transition(state),
        ensures
            final(self).wf(),
            final(self).table() == old(self).table().insert(state_name, state),
            final(self).value == old(self).value,
            final(self).context == old(self).context,
            final(self).id == old(self).id,
            final(self).initial == old(self).initial,
    {
        let found = self.find(&state_name);
        match found {
            Some(i) => {
                proof {
                    lemma_table_update(self.states@, i as int, state);
                }
                self.states.set(i, (state_name, state));
            },
            None => {
                proof {
                    lemma_table_push(self.states@, state_name, state);
                }
                self.states.push((state_name, state));
            },
        }
    }
    /// Moves the machine to `state_name`; no hook runs.
    pub fn set_state(&mut self, state_name: S)
        ensures
            *final(self) == (Machine { value: state_name, ..*old(self) }),
    {
        self.value = state_name;
    }

    /// Replaces the context; no hook runs.
    pub fn set_context(&mut self, context: C)
        ensures
            *final(self) == (Machine { context, ..*old(self) }),
    {
        self.context = context;
    }

    /// Handles `action`: the context hook of the current state runs, then its
    /// `on` hook picks the next state; on a change of state the entry hook of
    /// the new state and then the exit hook of the old one run. A state
    /// without a transition ignores every action.
    pub fn transition(&mut self, action: &A)
        requires
            old(self).wf(),
            obeys_concrete_eq::<S>(),
        ensures
            *final(self) == old(self).stepped(*action),
            old(self).answers(*action),
            final(self).wf(),
    {
        let a = *action;
        let current_value = self.value;
        let found = self.find(&current_value);
        if let Some(i) = found {
            proof {
                lemma_table_entry(self.states@, i as int);
            }
            match &self.states[i].1.context {
                Some(f) => {
                    let c = f(self.context, a, current_value);
                    proof {
                        lemma_reduce(*f, self.context, a, current_value, c);
                    }
                    self.context = c;
                },
                None => {},
            }
            match &self.states[i].1.on {
                Some(f) => {
                    let s = f(self.context, a, current_value);
                    proof {
                        lemma_reduce(*f, self.context, a, current_value, s);
                    }
                    self.value = s;
                },
                None => {},
            }
            let next = self.value;
            proof {
                reveal(obeys_concrete_eq);
            }
            if next != current_value {
                let entry = self.find(&next);
                if let Some(j) = entry {
                    proof {
                        lemma_table_entry(self.states@, j as int);
                    }
                    match &self.states[j].1.on_entry {
                        Some(f) => {
                            let c = f(self.context, a, next);
                            proof {
                                lemma_reduce(*f, self.context, a, next, c);
                            }
                            self.context = c;
                        },
                        None => {},
                    }
                }
                match &self.states[i].1.on_exit {
                    Some(f) => {
                        let c = f(self.context, a, next);
                        proof {
                            lemma_reduce(*f, self.context, a, next, c);
                        }
                        self.context = c;
                    },
                    None => {},
                }
            }
        }
    }

    /// Handles `action` exactly as [`Machine::transition`] does.
    pub fn send(&mut self, action: A)
        requires
            old(self).wf(),
            obeys_concrete_eq::<S>(),
        ensures
            *final(self) == old(self).stepped(action),
            old(self).answers(action),
            final(self).wf(),
    {
        self.transition(&action);
    }
}

/// A machine whose current state has no transition ignores every action:
/// state and context stay as they are.
pub proof fn lemma_missing_transition_is_noop<A: Copy, S: Eq + Copy, C: Copy, FS: Fn(C, A, S) -> S, FC: Fn(C, A, S) -> C>(
    m: Machine<A, S, C, FS, FC>,
    action: A,
)
    requires
        !m.table().contains_key(m.value),
    ensures
        m.next(action) == (m.value, m.context),
{
}

/// The `on` hook sees the context that the context hook has just produced,
/// not the context from before the action.
pub proof fn lemma_context_before_state<A: Copy, S: Eq + Copy, C: Copy, FS: Fn(C, A, S) -> S, FC: Fn(C, A, S) -> C>(
    m: Machine<A, S, C, FS, FC>,
    action: A,
)
    requires
        m.table().contains_key(m.value),
        m.table()[m.value].context is Some,
        m.table()[m.value].on is Some,
    ensures
        m.next(action).0 == reduce(
            m.table()[m.value].on.unwrap(),
            reduce(m.table()[m.value].context.unwrap(), m.context, action, m.value),
            action,
            m.value,
        ),
{
}

/// Entry and exit hooks run only on a change of state. When the state stays,
/// the context is what the context hook left. When it changes, the new
/// state's entry hook runs once and then the old state's exit hook runs once,
/// on the context the entry hook left.
pub proof fn lemma_entry_exit_only_on_change<A: Copy, S: Eq + Copy, C: Copy, FS: Fn(C, A, S) -> S, FC: Fn(C, A, S) -> C>(
    m: Machine<A, S, C, FS, FC>,
    action: A,
)
    requires
        m.table().contains_key(m.value),
    ensures
        ({
            let t = m.table()[m.value];
            let c1 = run_context_hook(t.context, m.context, action, m.value);
            let (next, c) = m.next(action);
            &&& next == m.value ==> c == c1
            &&& next != m.value ==> c == run_context_hook(
                t.on_exit,
                entered(m.table(), c1, action, next),
                action,
                next,
            )
        }),
{
}

} // verus!
