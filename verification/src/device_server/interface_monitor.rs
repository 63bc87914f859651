//! Watching whether a network interface is up.

use vstd::prelude::*;
use vstd::string::StringExecFns;
use crate::text::{
    is_blank, law_blanks_around_do_not_count, law_trimming_cuts_blanks_only, same_text, trim,
    trimmed_text,
};

verus! {

/// A change of the state of an interface, with the name of the interface.
#[derive(Debug, Clone)]
pub enum InterfaceEvent {
    Up(String),
    Down(String),
}

/// Remembers the last state of an interface, to tell when it changes.
#[derive(Debug)]
pub struct InterfaceMonitor {
    pub iface: String,
    pub last_state: bool,
}

/// Whether the contents of an operational state file say that the interface can be used.
pub open spec fn operstate_is_up(content: Seq<char>) -> bool {
    let state = trimmed_text(content);
    state == "up"@ || state == "unknown"@ || state == "lowerup"@
}

/// What there is to tell when the state of `iface` was `last` and is `now`.
pub open spec fn event_for(iface: String, last: bool, now: bool) -> Option<InterfaceEvent> {
    if last == now {
        None
    } else if now {
        Some(InterfaceEvent::Up(iface))
    } else {
        Some(InterfaceEvent::Down(iface))
    }
}

/// The state after `states` have been seen one after the other, beginning with `first`.
pub open spec fn state_after(first: bool, states: Seq<bool>) -> bool {
    if states.len() == 0 {
        first
    } else {
        states.last()
    }
}

/// All that is told while `states` are seen one after the other, beginning with `first`.
pub open spec fn events_told(iface: String, first: bool, states: Seq<bool>) -> Seq<InterfaceEvent>
    decreases states.len(),
{
    if states.len() == 0 {
        Seq::empty()
    } else {
        let before = events_told(iface, first, states.drop_last());
        match event_for(iface, state_after(first, states.drop_last()), states.last()) {
            Some(event) => before.push(event),
            None => before,
        }
    }
}

impl InterfaceMonitor {
    /// A monitor for `iface`, which counts as down until it has been seen up.
    pub fn new(iface: &str) -> (r: Self)
        ensures
            r.iface@ == iface@,
            !r.last_state,
    {
        InterfaceMonitor { iface: iface.to_owned(), last_state: false }
    }

    /// The file that tells the operational state of `iface`.
    pub fn operstate_path(iface: &str) -> (path: String)
        ensures
            path@ == "/sys/class/net/"@ + iface@ + "/operstate"@,
    {
        let mut path: String = "/sys/class/net/".to_owned();
        path.append(iface);
        path.append("/operstate");
        path
    }

    /// Says whether an interface is up, given the contents of its operational state file, or
    /// `None` if the file could not be read.
    pub fn is_interface_up(operstate: Option<&str>) -> (up: bool)
        ensures
            up == match operstate {
                Some(content) => operstate_is_up(content@),
                None => false,
            },
    {
        match operstate {
            Some(content) => {
                let state: &str = trim(content);
                same_text(state, "up") || same_text(state, "unknown") || same_text(
                    state,
                    "lowerup",
                )
            },
            None => false,
        }
    }

    /// Takes in the present state and tells of it if it differs from the last one.
    pub fn observe(&mut self, current_up: bool) -> (event: Option<InterfaceEvent>)
        ensures
            final(self).last_state == current_up,
            final(self).iface == old(self).iface,
            event == event_for(old(self).iface, old(self).last_state, current_up),
    {
        if current_up != self.last_state {
            self.last_state = current_up;
            if current_up {
                Some(InterfaceEvent::Up(self.iface.clone()))
            } else {
                Some(InterfaceEvent::Down(self.iface.clone()))
            }
        } else {
            None
        }
    }
}

/// Whatever states are seen, the events tell of ups and downs in turn, the first of them tells of
/// a change from the first state, and the last of them tells the present state.
pub proof fn law_events_alternate(iface: String, first: bool, states: Seq<bool>)
    ensures
        ({
            let events = events_told(iface, first, states);
            &&& forall|i: int|
                0 <= i < events.len() ==> (#[trigger] events[i] is Up) == (first == (i % 2 == 1))
            &&& events.len() % 2 == 0 <==> state_after(first, states) == first
            &&& events.len() > 0 ==> (events.last() is Up) == state_after(first, states)
        }),
    decreases states.len(),
{
    if states.len() > 0 {
        law_events_alternate(iface, first, states.drop_last());
    }
}

/// Whether `content` is `state` between blank characters.
pub open spec fn says(content: Seq<char>, state: Seq<char>) -> bool {
    exists|before: Seq<char>, behind: Seq<char>|
        {
            &&& content == #[trigger] (before + state + behind)
            &&& forall|i: int| 0 <= i < before.len() ==> is_blank(#[trigger] before[i])
            &&& forall|i: int| 0 <= i < behind.len() ==> is_blank(#[trigger] behind[i])
        }
}

/// If `content` is `state` between blanks, `state` is left after trimming.
proof fn lemma_said_state_is_left(content: Seq<char>, state: Seq<char>)
    requires
        says(content, state),
        state.len() > 0,
        !is_blank(state.first()),
        !is_blank(state.last()),
    ensures
        trimmed_text(content) == state,
{
    let (before, behind) = choose|before: Seq<char>, behind: Seq<char>|
        {
            &&& content == #[trigger] (before + state + behind)
            &&& forall|i: int| 0 <= i < before.len() ==> is_blank(#[trigger] before[i])
            &&& forall|i: int| 0 <= i < behind.len() ==> is_blank(#[trigger] behind[i])
        };
    law_blanks_around_do_not_count(before, state, behind, |c: char| is_blank(c));
}

/// An interface can be used exactly if its file says `up`, `unknown` or `lowerup`, with any blank
/// characters around it and nothing else.
pub proof fn law_three_states_are_up(content: Seq<char>)
    ensures
        operstate_is_up(content) <==> says(content, "up"@) || says(content, "unknown"@) || says(
            content,
            "lowerup"@,
        ),
{
    reveal_strlit("up");
    reveal_strlit("unknown");
    reveal_strlit("lowerup");
    if says(content, "up"@) {
        lemma_said_state_is_left(content, "up"@);
    }
    if says(content, "unknown"@) {
        lemma_said_state_is_left(content, "unknown"@);
    }
    if says(content, "lowerup"@) {
        lemma_said_state_is_left(content, "lowerup"@);
    }
    let (before, behind) = law_trimming_cuts_blanks_only(content, |c: char| is_blank(c));
    let state = trimmed_text(content);
    assert(content == before + state + behind);
    assert(says(content, state));
}

/// An event is told exactly when the state has changed. It tells the new state and the name of the
/// interface.
pub proof fn law_event_tells_the_change(iface: String, last: bool, now: bool)
    ensures
        event_for(iface, last, now) is None <==> last == now,
        !last && now ==> event_for(iface, last, now) == Some(InterfaceEvent::Up(iface)),
        last && !now ==> event_for(iface, last, now) == Some(InterfaceEvent::Down(iface)),
{
}

/// One more observation becomes the present state, and adds an event exactly when it differs from
/// the state before. What was told before stays.
pub proof fn law_each_change_is_told(iface: String, first: bool, states: Seq<bool>, now: bool)
    ensures
        state_after(first, Seq::empty()) == first,
        state_after(first, states.push(now)) == now,
        events_told(iface, first, Seq::empty()).len() == 0,
        events_told(iface, first, states).is_prefix_of(
            events_told(iface, first, states.push(now)),
        ),
        events_told(iface, first, states.push(now)).len() == events_told(
            iface,
            first,
            states,
        ).len() + if now == state_after(first, states) {
            0int
        } else {
            1
        },
        now != state_after(first, states) ==> events_told(iface, first, states.push(now)).last()
            == if now {
            InterfaceEvent::Up(iface)
        } else {
            InterfaceEvent::Down(iface)
        },
{
    assert(states.push(now).drop_last() =~= states);
}

} // verus!
