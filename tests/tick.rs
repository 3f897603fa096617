use rstate::{Machine, Transition};

#[derive(Copy, Clone, Debug)]
enum Action {
    Start,
    Tick,
    Finish,
}

#[derive(Debug, Clone, Copy, PartialEq, Eq, Hash)]
enum State {
    Idle,
    Active,
    Finished,
}

#[derive(Debug, Clone, Copy)]
struct Context {
    dirty_count: u8,
    tick: u8,
}

type StateFn = fn(Context, Action, State) -> State;
type ContextFn = fn(Context, Action, State) -> Context;

fn tick_machine() -> Machine<Action, State, Context, StateFn, ContextFn> {
    let context = Context { tick: 0, dirty_count: 0 };
    let mut machine =
        Machine::<Action, State, Context, StateFn, ContextFn>::new("tick".to_string(), State::Idle, context);

    machine.add_state(
        State::Idle,
        Transition {
            context: None,
            on: Some(|_context, action, state| match action {
                Action::Start => State::Active,
                _ => state,
            }),
            ..Default::default()
        },
    );
    machine.add_state(
        State::Active,
        Transition {
            context: Some(|mut context, action, _state| match action {
                Action::Tick => {
                    context.tick += 1;
                    context
                }
                _ => context,
            }),
            on: Some(|_context, action, state| match action {
                Action::Finish => State::Finished,
                _ => state,
            }),
            on_entry: Some(|mut context, _action, _state| {
                context.dirty_count += 1;
                context
            }),
            on_exit: Some(|mut context, _action, _state| {
                context.dirty_count = 0;
                context
            }),
            ..Default::default()
        },
    );
    machine.add_state(State::Finished, Transition { ..Default::default() });
    machine
}

#[test]
fn tick_toggle_machine() {
    let mut machine = tick_machine();

    assert_eq!(machine.value, State::Idle);
    assert_eq!(machine.context.tick, 0);
    assert_eq!(machine.context.dirty_count, 0);

    machine.transition(&Action::Start);
    assert_eq!(machine.value, State::Active);
    assert_eq!(machine.context.tick, 0);
    assert_eq!(machine.context.dirty_count, 1);

    machine.transition(&Action::Tick);
    assert_eq!(machine.value, State::Active);
    assert_eq!(machine.context.tick, 1);
    assert_eq!(machine.context.dirty_count, 1);

    machine.transition(&Action::Tick);
    assert_eq!(machine.value, State::Active);
    assert_eq!(machine.context.tick, 2);
    assert_eq!(machine.context.dirty_count, 1);

    machine.transition(&Action::Finish);
    assert_eq!(machine.value, State::Finished);
    assert_eq!(machine.context.tick, 2);
    assert_eq!(machine.context.dirty_count, 0);
}

#[test]
fn entry_and_exit_run_only_on_change() {
    let mut machine = tick_machine();
    machine.transition(&Action::Start);
    assert_eq!(machine.context.dirty_count, 1);
    // staying in Active, however often, runs neither hook again
    for _ in 0..5 {
        machine.transition(&Action::Start);
    }
    assert_eq!(machine.value, State::Active);
    assert_eq!(machine.context.dirty_count, 1);
    assert_eq!(machine.context.tick, 0);
}

type Trace = [u8; 4];
type RoomFn = fn(Log, u8, Room) -> Room;
type LogFn = fn(Log, u8, Room) -> Log;

#[derive(Debug, Clone, Copy, PartialEq, Eq, Hash)]
enum Room {
    Hall,
    Kitchen,
}

#[derive(Debug, Clone, Copy)]
struct Log {
    steps: Trace,
    len: u8,
}

fn record(mut log: Log, mark: u8) -> Log {
    log.steps[log.len as usize] = mark;
    log.len += 1;
    log
}

#[test]
fn hooks_run_in_order_context_on_entry_exit() {
    let mut machine = Machine::<u8, Room, Log, RoomFn, LogFn>::new(
        "rooms".to_string(),
        Room::Hall,
        Log { steps: [0; 4], len: 0 },
    );
    machine.add_state(
        Room::Hall,
        Transition {
            context: Some(|log, _action, _state| record(log, 1)),
            on: Some(|log, _action, _state| {
                assert_eq!(log.len, 1);
                Room::Kitchen
            }),
            on_exit: Some(|log, _action, state| {
                assert_eq!(state, Room::Kitchen);
                record(log, 3)
            }),
            on_entry: Some(|log, _action, _state| record(log, 9)),
            ..Default::default()
        },
    );
    machine.add_state(
        Room::Kitchen,
        Transition {
            on_entry: Some(|log, _action, state| {
                assert_eq!(state, Room::Kitchen);
                record(log, 2)
            }),
            ..Default::default()
        },
    );
    machine.transition(&0);
    assert_eq!(machine.value, Room::Kitchen);
    assert_eq!(machine.context.len, 3);
    assert_eq!(machine.context.steps, [1, 2, 3, 0]);
}

#[derive(Debug, Clone, Copy, PartialEq, Eq, Hash)]
enum Gate {
    Closed,
    Open,
}

type GateFn = fn(u8, (), Gate) -> Gate;
type CountFn = fn(u8, (), Gate) -> u8;

#[test]
fn on_sees_the_counter_after_the_context_hook() {
    let mut machine = Machine::<(), Gate, u8, GateFn, CountFn>::new("gate".to_string(), Gate::Closed, 0);
    machine.add_state(
        Gate::Closed,
        Transition {
            context: Some(|count, _action, _state| count + 1),
            on: Some(|count, _action, state| if count == 1 { Gate::Open } else { state }),
            ..Default::default()
        },
    );
    machine.transition(&());
    assert_eq!(machine.value, Gate::Open);
    assert_eq!(machine.context, 1);
}
