use retrofit::lifecycle::{initial, plan, setting_named, step, Action, Event, State};
use retrofit::meta::Value;
use retrofit::service::Setting;

fn s(text: &str) -> String {
    text.to_string()
}

fn setting(name: &str, value: &str) -> Setting {
    Setting { name: s(name), value: Some(Value::Text(s(value))) }
}

fn run(start: State, events: &[Event]) -> (State, Vec<Action>) {
    let mut state = start;
    let mut actions = vec![];
    for event in events {
        let (next, action) = step(state, *event);
        state = next;
        actions.push(action);
    }
    (state, actions)
}

fn builds(actions: &[Action]) -> usize {
    actions.iter().filter(|a| **a == Action::Build).count()
}

#[test]
fn every_transition_is_as_tabled() {
    assert_eq!(step(State::Unbuilt, Event::Wanted), (State::Building, Action::Build));
    assert_eq!(step(State::Unbuilt, Event::Completed), (State::Unbuilt, Action::Ignore));
    assert_eq!(step(State::Unbuilt, Event::Broken), (State::Unbuilt, Action::Ignore));
    assert_eq!(step(State::Building, Event::Wanted), (State::Building, Action::Wait));
    assert_eq!(step(State::Building, Event::Completed), (State::Built, Action::Proceed));
    assert_eq!(step(State::Building, Event::Broken), (State::Failed, Action::Fail));
    assert_eq!(step(State::Built, Event::Wanted), (State::Built, Action::Proceed));
    assert_eq!(step(State::Built, Event::Completed), (State::Built, Action::Ignore));
    assert_eq!(step(State::Built, Event::Broken), (State::Built, Action::Ignore));
    assert_eq!(step(State::Failed, Event::Wanted), (State::Failed, Action::Fail));
    assert_eq!(step(State::Failed, Event::Completed), (State::Failed, Action::Ignore));
    assert_eq!(step(State::Failed, Event::Broken), (State::Failed, Action::Ignore));
}

#[test]
fn a_service_starts_unbuilt_or_with_a_client_handed_over() {
    assert_eq!(initial(false), State::Unbuilt);
    assert_eq!(initial(true), State::Built);
}

#[test]
fn the_first_caller_builds_and_the_others_wait() {
    let (state, actions) =
        run(initial(false), &[Event::Wanted, Event::Wanted, Event::Wanted, Event::Completed]);
    assert_eq!(state, State::Built);
    assert_eq!(actions, vec![Action::Build, Action::Wait, Action::Wait, Action::Proceed]);
    assert_eq!(builds(&actions), 1);
}

#[test]
fn the_client_is_built_once_however_the_callers_arrive() {
    for callers in 1..=6usize {
        for done_after in 1..=callers {
            let mut events = vec![];
            for i in 0..callers {
                events.push(Event::Wanted);
                if i + 1 == done_after {
                    events.push(Event::Completed);
                }
            }
            let (state, actions) = run(initial(false), &events);
            assert_eq!(state, State::Built);
            assert_eq!(builds(&actions), 1);
        }
    }
}

#[test]
fn callers_after_the_build_go_on_at_once() {
    let (state, actions) =
        run(initial(false), &[Event::Wanted, Event::Completed, Event::Wanted, Event::Wanted]);
    assert_eq!(state, State::Built);
    assert_eq!(actions, vec![Action::Build, Action::Proceed, Action::Proceed, Action::Proceed]);
}

#[test]
fn a_failed_build_is_not_tried_again() {
    let (state, actions) =
        run(initial(false), &[Event::Wanted, Event::Wanted, Event::Broken, Event::Wanted, Event::Wanted]);
    assert_eq!(state, State::Failed);
    assert_eq!(
        actions,
        vec![Action::Build, Action::Wait, Action::Fail, Action::Fail, Action::Fail]
    );
    assert_eq!(builds(&actions), 1);
}

#[test]
fn a_client_handed_over_is_never_built() {
    let (state, actions) = run(initial(true), &[Event::Wanted, Event::Wanted, Event::Completed]);
    assert_eq!(state, State::Built);
    assert_eq!(actions, vec![Action::Proceed, Action::Proceed, Action::Ignore]);
    assert_eq!(builds(&actions), 0);
}

#[test]
fn without_a_caller_nothing_is_built() {
    let (state, actions) = run(initial(false), &[Event::Completed, Event::Broken]);
    assert_eq!(state, State::Unbuilt);
    assert_eq!(builds(&actions), 0);
}

#[test]
fn the_plan_starts_with_the_librarys_user_agent() {
    assert_eq!(plan(&vec![], &vec![]), vec![setting("user_agent", "retrofit/0.1.0")]);
}

#[test]
fn the_plan_lists_the_layers_in_rising_precedence() {
    let declared = vec![setting("user_agent", "declared/1"), setting("proxy", "p")];
    let custom = vec![setting("user_agent", "custom/2")];
    assert_eq!(
        plan(&declared, &custom),
        vec![
            setting("user_agent", "retrofit/0.1.0"),
            setting("user_agent", "declared/1"),
            setting("proxy", "p"),
            setting("user_agent", "custom/2"),
        ]
    );
}

#[test]
fn the_last_setting_of_a_name_holds() {
    let declared = vec![setting("user_agent", "declared/1"), setting("proxy", "p")];
    let custom = vec![setting("user_agent", "custom/2")];
    let both = plan(&declared, &custom);
    assert_eq!(setting_named(&both, "user_agent"), Some(&setting("user_agent", "custom/2")));
    assert_eq!(setting_named(&both, "proxy"), Some(&setting("proxy", "p")));
    assert_eq!(setting_named(&both, "gzip"), None);

    let only_declared = plan(&declared, &vec![]);
    assert_eq!(
        setting_named(&only_declared, "user_agent"),
        Some(&setting("user_agent", "declared/1"))
    );

    let neither = plan(&vec![], &vec![]);
    assert_eq!(
        setting_named(&neither, "user_agent"),
        Some(&setting("user_agent", "retrofit/0.1.0"))
    );
    assert_eq!(setting_named(&vec![], "user_agent"), None);
}
