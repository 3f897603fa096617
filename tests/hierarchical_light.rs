use rstate::{Machine, Transition};

#[derive(Copy, Clone, Debug)]
enum Action {
    Timer,
    PedestrianTimer,
}

#[derive(Debug, Clone, Copy, PartialEq, Eq, Hash)]
enum Red {
    Wait,
    Walk,
}

#[derive(Debug, Clone, Copy, PartialEq, Eq, Hash)]
enum State {
    Green,
    Yellow,
    Red(Red),
}

#[derive(Debug, Clone, Copy)]
struct Context {
    timer: u8,
}

type StateFn = fn(Context, Action, State) -> State;
type ContextFn = fn(Context, Action, State) -> Context;

#[test]
fn hierarchical_light_toggle_machine() {
    let context = Context { timer: 3 };
    let mut machine = Machine::<Action, State, Context, StateFn, ContextFn>::new(
        "hierarchical-light".to_string(),
        State::Green,
        context,
    );
    machine.add_state(
        State::Green,
        Transition {
            context: None,
            on: Some(|_context, action, state| match action {
                Action::Timer => State::Yellow,
                _ => state,
            }),
            ..Default::default()
        },
    );
    machine.add_state(
        State::Yellow,
        Transition {
            context: None,
            on: Some(|_context, action, state| match action {
                Action::Timer => State::Red(Red::Wait),
                _ => state,
            }),
            ..Default::default()
        },
    );
    machine.add_state(
        State::Red(Red::Wait),
        Transition {
            context: None,
            on: Some(|_context, action, state| match action {
                Action::PedestrianTimer => State::Red(Red::Walk),
                _ => state,
            }),
            ..Default::default()
        },
    );
    machine.add_state(
        State::Red(Red::Walk),
        Transition {
            context: Some(|mut context, action, _state| {
                match action {
                    Action::PedestrianTimer => context.timer -= 1,
                    _ => {}
                };
                context
            }),
            on: Some(|context, action, state| match action {
                Action::PedestrianTimer => State::Red(Red::Walk),
                Action::Timer => {
                    if context.timer == 0 {
                        State::Green
                    } else {
                        state
                    }
                }
            }),
            ..Default::default()
        },
    );

    assert_eq!(machine.value, State::Green);
    machine.transition(&Action::Timer);
    assert_eq!(machine.value, State::Yellow);
    machine.transition(&Action::Timer);
    assert_eq!(machine.value, State::Red(Red::Wait));

    // does not change state
    machine.transition(&Action::Timer);
    assert_eq!(machine.value, State::Red(Red::Wait));

    // count down the timer
    machine.transition(&Action::PedestrianTimer);
    machine.transition(&Action::Timer);
    assert_eq!(machine.value, State::Red(Red::Walk));
    assert_eq!(machine.context.timer, 3);
    machine.transition(&Action::PedestrianTimer);
    machine.transition(&Action::Timer);
    assert_eq!(machine.value, State::Red(Red::Walk));
    assert_eq!(machine.context.timer, 2);
    machine.transition(&Action::PedestrianTimer);
    machine.transition(&Action::Timer);
    assert_eq!(machine.value, State::Red(Red::Walk));
    assert_eq!(machine.context.timer, 1);
    machine.transition(&Action::PedestrianTimer);
    machine.transition(&Action::Timer);
    assert_eq!(machine.value, State::Green);
}
