//! The life of the transport client: built once, on first use, from the
//! layered settings, and shared from then on.

use vstd::prelude::*;

use crate::meta::{views, Value, ValueView};
use crate::service::{Setting, SettingView};
use crate::text::same_text;

verus! {

/// Where the transport client of one service stands.
#[derive(Debug, PartialEq, Eq, Clone, Copy)]
pub enum State {
    /// Nobody has asked for the client yet.
    Unbuilt,
    /// One caller is building the client; the others wait.
    Building,
    /// The client is built and shared.
    Built,
    /// Building the client failed; it is not tried again.
    Failed,
}

/// What happens to the client of one service.
#[derive(Debug, PartialEq, Eq, Clone, Copy)]
pub enum Event {
    /// A caller asks for the client.
    Wanted,
    /// The caller that was building the client has built it.
    Completed,
    /// The caller that was building the client could not build it.
    Broken,
}

/// What the one who reported an event is to do.
#[derive(Debug, PartialEq, Eq, Clone, Copy)]
pub enum Action {
    /// Build the client, then report how it went.
    Build,
    /// Wait until the client is built or building it has failed.
    Wait,
    /// Go on with the client that is built.
    Proceed,
    /// Give up: there is no client and there will be none.
    Fail,
    /// Nothing: the event does not belong to this state.
    Ignore,
}

/// The state that follows a state on an event, and what the one who
/// reported the event is to do.
pub open spec fn next(state: State, event: Event) -> (State, Action) {
    match (state, event) {
        (State::Unbuilt, Event::Wanted) => (State::Building, Action::Build),
        (State::Building, Event::Wanted) => (State::Building, Action::Wait),
        (State::Built, Event::Wanted) => (State::Built, Action::Proceed),
        (State::Failed, Event::Wanted) => (State::Failed, Action::Fail),
        (State::Building, Event::Completed) => (State::Built, Action::Proceed),
        (State::Building, Event::Broken) => (State::Failed, Action::Fail),
        (_, _) => (state, Action::Ignore),
    }
}

/// Decides what follows an event.
pub fn step(state: State, event: Event) -> (r: (State, Action))
    ensures
        r == next(state, event),
{
    match (state, event) {
        (State::Unbuilt, Event::Wanted) => (State::Building, Action::Build),
        (State::Building, Event::Wanted) => (State::Building, Action::Wait),
        (State::Built, Event::Wanted) => (State::Built, Action::Proceed),
        (State::Failed, Event::Wanted) => (State::Failed, Action::Fail),
        (State::Building, Event::Completed) => (State::Built, Action::Proceed),
        (State::Building, Event::Broken) => (State::Failed, Action::Fail),
        (_, _) => (state, Action::Ignore),
    }
}

/// The state in which a service starts: with its client still to be built,
/// or with a client that its maker handed over.
pub open spec fn initial_state(ready: bool) -> State {
    if ready {
        State::Built
    } else {
        State::Unbuilt
    }
}

/// The state in which a service starts.
pub fn initial(ready: bool) -> (r: State)
    ensures
        r == initial_state(ready),
{
    if ready {
        State::Built
    } else {
        State::Unbuilt
    }
}

/// The state after a run of events.
pub open spec fn state_after(state: State, events: Seq<Event>) -> State
    decreases events.len(),
{
    if events.len() == 0 {
        state
    } else {
        next(state_after(state, events.drop_last()), events.last()).0
    }
}

/// How often a run of events had the client built.
pub open spec fn builds(state: State, events: Seq<Event>) -> nat
    decreases events.len(),
{
    if events.len() == 0 {
        0
    } else {
        let before = builds(state, events.drop_last());
        if next(state_after(state, events.drop_last()), events.last()).1 == Action::Build {
            before + 1
        } else {
            before
        }
    }
}

/// Whether a caller asks for the client somewhere in a run of events.
pub open spec fn is_wanted(events: Seq<Event>) -> bool {
    exists|i: int| 0 <= i < events.len() && events[i] == Event::Wanted
}

/// A service that started without a client has left that state as soon as
/// one caller asked for the client, and has had the client built exactly
/// once by then; before that it has not had it built at all.
pub proof fn lemma_builds_from_unbuilt(events: Seq<Event>)
    ensures
        is_wanted(events) ==> builds(State::Unbuilt, events) == 1 && state_after(
            State::Unbuilt,
            events,
        ) != State::Unbuilt,
        !is_wanted(events) ==> builds(State::Unbuilt, events) == 0 && state_after(
            State::Unbuilt,
            events,
        ) == State::Unbuilt,
    decreases events.len(),
{
    if events.len() > 0 {
        let init = events.drop_last();
        lemma_builds_from_unbuilt(init);
        if is_wanted(init) {
            let i = choose|i: int| 0 <= i < init.len() && init[i] == Event::Wanted;
            assert(events[i] == Event::Wanted);
        } else if events.last() == Event::Wanted {
            assert(events[events.len() - 1] == Event::Wanted);
        } else {
            if is_wanted(events) {
                let i = choose|i: int| 0 <= i < events.len() && events[i] == Event::Wanted;
                assert(init[i] == Event::Wanted);
            }
        }
    }
}

/// However many callers ask for the client of a service that started
/// without one, and in whatever order their requests and the builder's
/// reports arrive, the client is built exactly once.
pub proof fn law_client_is_built_once(events: Seq<Event>)
    requires
        is_wanted(events),
    ensures
        builds(State::Unbuilt, events) == 1,
{
    lemma_builds_from_unbuilt(events);
}

/// A service whose maker handed a client over never has one built.
pub proof fn law_ready_client_is_never_built(events: Seq<Event>)
    ensures
        builds(State::Built, events) == 0,
        state_after(State::Built, events) == State::Built,
    decreases events.len(),
{
    if events.len() > 0 {
        law_ready_client_is_never_built(events.drop_last());
    }
}

/// The built state and the failed state are final, and a caller goes on
/// with the client only where the client is built.
pub proof fn law_built_and_failed_are_final(state: State, event: Event)
    ensures
        state == State::Built ==> next(state, event).0 == State::Built,
        state == State::Failed ==> next(state, event).0 == State::Failed,
        next(state, event).1 == Action::Proceed ==> next(state, event).0 == State::Built,
        next(state, event).1 == Action::Build ==> state == State::Unbuilt,
{
}

/// The name of the setting that holds the user agent.
pub open spec fn user_agent_name() -> Seq<char> {
    "user_agent"@
}

/// The user agent of a client for which nothing else is declared.
pub open spec fn default_user_agent() -> Seq<char> {
    "retrofit/0.1.0"@
}

/// The setting that the library itself contributes.
pub open spec fn default_setting() -> SettingView {
    SettingView { name: user_agent_name(), value: Some(ValueView::Text(default_user_agent())) }
}

/// The settings from which a client is built, in rising precedence: the
/// library's own, those declared with the interface, and those that the
/// call site installed.
pub open spec fn planned(declared: Seq<SettingView>, custom: Seq<SettingView>) -> Seq<SettingView> {
    seq![default_setting()] + declared + custom
}

/// The setting of a name that holds in a list of settings: the last that
/// bears the name.
pub open spec fn effective(settings: Seq<SettingView>, name: Seq<char>) -> Option<SettingView>
    decreases settings.len(),
{
    if settings.len() == 0 {
        None
    } else if settings.last().name == name {
        Some(settings.last())
    } else {
        effective(settings.drop_last(), name)
    }
}

/// Lists the settings from which a client is built, in rising precedence.
pub fn plan(declared: &Vec<Setting>, custom: &Vec<Setting>) -> (r: Vec<Setting>)
    ensures
        views(r@) == planned(views(declared@), views(custom@)),
{
    let mut out: Vec<Setting> = Vec::new();
    out.push(
        Setting {
            name: "user_agent".to_owned(),
            value: Some(Value::Text("retrofit/0.1.0".to_owned())),
        },
    );
    proof {
        assert(views(out@) == seq![default_setting()]);
        assert(views(declared@).take(0) == Seq::<SettingView>::empty());
        assert(seq![default_setting()] + Seq::<SettingView>::empty() == seq![default_setting()]);
    }
    let mut i: usize = 0;
    while i < declared.len()
        invariant
            i <= declared.len(),
            views(out@) == seq![default_setting()] + views(declared@).take(i as int),
        decreases declared.len() - i,
    {
        let ghost before = views(out@);
        let setting = declared[i].clone();
        out.push(setting);
        proof {
            assert(views(out@) == before.push(setting@));
            assert(views(declared@).take(i + 1) == views(declared@).take(i as int).push(
                declared@[i as int]@,
            ));
        }
        i += 1;
    }
    proof {
        assert(views(declared@).take(i as int) == views(declared@));
        assert(views(custom@).take(0) == Seq::<SettingView>::empty());
        assert(views(out@) + Seq::<SettingView>::empty() == views(out@));
    }
    let ghost base = views(out@);
    let mut j: usize = 0;
    while j < custom.len()
        invariant
            j <= custom.len(),
            base == seq![default_setting()] + views(declared@),
            views(out@) == base + views(custom@).take(j as int),
        decreases custom.len() - j,
    {
        let ghost before = views(out@);
        let setting = custom[j].clone();
        out.push(setting);
        proof {
            assert(views(out@) == before.push(setting@));
            assert(views(custom@).take(j + 1) == views(custom@).take(j as int).push(
                custom@[j as int]@,
            ));
        }
        j += 1;
    }
    proof {
        assert(views(custom@).take(j as int) == views(custom@));
    }
    out
}

/// Finds the setting of a name that holds in a list of settings.
pub fn setting_named<'a>(settings: &'a Vec<Setting>, name: &str) -> (r: Option<&'a Setting>)
    ensures
        match r {
            Some(s) => effective(views(settings@), name@) == Some(s@),
            None => effective(views(settings@), name@) is None,
        },
{
    let mut i: usize = settings.len();
    let ghost all = views(settings@);
    proof {
        assert(all.take(i as int) == all);
    }
    while i > 0
        invariant
            i <= settings.len(),
            all == views(settings@),
            effective(all, name@) == effective(all.take(i as int), name@),
        decreases i,
    {
        proof {
            assert(all.take(i as int).drop_last() == all.take(i - 1));
            assert(all.take(i as int).last() == settings@[i - 1]@);
        }
        if same_text(settings[i - 1].name.as_str(), name) {
            return Some(&settings[i - 1]);
        }
        i -= 1;
    }
    None
}

/// In a list of settings followed by another, the setting of a name that
/// holds is the one that holds in the second list, if any does there, and
/// else the one that holds in the first.
pub proof fn lemma_effective_of_two(
    first: Seq<SettingView>,
    second: Seq<SettingView>,
    name: Seq<char>,
)
    ensures
        effective(first + second, name) == if effective(second, name) is Some {
            effective(second, name)
        } else {
            effective(first, name)
        },
    decreases second.len(),
{
    if second.len() == 0 {
        assert(first + second == first);
    } else {
        assert((first + second).drop_last() == first + second.drop_last());
        assert((first + second).last() == second.last());
        lemma_effective_of_two(first, second.drop_last(), name);
    }
}

/// The settings take precedence in this order: what the call site
/// installed, before what the interface declares, before the library's
/// own user agent.
pub proof fn law_settings_precedence(
    declared: Seq<SettingView>,
    custom: Seq<SettingView>,
    name: Seq<char>,
)
    ensures
        effective(planned(declared, custom), name) == if effective(custom, name) is Some {
            effective(custom, name)
        } else if effective(declared, name) is Some {
            effective(declared, name)
        } else if name == user_agent_name() {
            Some(default_setting())
        } else {
            None
        },
{
    let own = seq![default_setting()];
    lemma_effective_of_two(own + declared, custom, name);
    lemma_effective_of_two(own, declared, name);
    assert(own.drop_last() == Seq::<SettingView>::empty());
    assert(own.last() == default_setting());
    assert(effective(own.drop_last(), name) is None);
    assert(effective(own, name) == if name == user_agent_name() {
        Some(default_setting())
    } else {
        None::<SettingView>
    });
    assert(planned(declared, custom) == (own + declared) + custom);
}

} // verus!
