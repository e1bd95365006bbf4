use vstd::prelude::*;

use crate::text::{blank, is_blank};

verus! {

/// What one polling cycle observed of the external clipboard source.
pub enum SourceEvent {
    Read(String),
    ReadFailed,
}

/// What the loop is to do after a cycle: hand fresh text to the history,
/// reacquire the source handle after a failed read, or nothing.
pub enum SourceAction {
    Forward(String),
    Reinitialize,
    Idle,
}

/// The spec-level picture of an observation.
pub ghost enum EventModel {
    Read(Seq<char>),
    ReadFailed,
}

/// The spec-level picture of an action.
pub ghost enum ActionModel {
    Forward(Seq<char>),
    Reinitialize,
    Idle,
}

impl View for SourceEvent {
    type V = EventModel;

    open spec fn view(&self) -> EventModel {
        match self {
            SourceEvent::Read(s) => EventModel::Read(s@),
            SourceEvent::ReadFailed => EventModel::ReadFailed,
        }
    }
}

impl View for SourceAction {
    type V = ActionModel;

    open spec fn view(&self) -> ActionModel {
        match self {
            SourceAction::Forward(s) => ActionModel::Forward(s@),
            SourceAction::Reinitialize => ActionModel::Reinitialize,
            SourceAction::Idle => ActionModel::Idle,
        }
    }
}

/// The text remembered after one observation: a successful read of fresh,
/// non-blank text replaces it, whether or not the history accepts the text;
/// everything else leaves it alone.
pub open spec fn step_state(last: Seq<char>, ev: EventModel) -> Seq<char> {
    match ev {
        EventModel::Read(c) => if !blank(c) && c != last {
            c
        } else {
            last
        },
        EventModel::ReadFailed => last,
    }
}

/// The action one observation calls for: forward fresh non-blank text,
/// reinitialize after a failed read, otherwise nothing.
pub open spec fn step_action(last: Seq<char>, ev: EventModel) -> ActionModel {
    match ev {
        EventModel::Read(c) => if !blank(c) && c != last {
            ActionModel::Forward(c)
        } else {
            ActionModel::Idle
        },
        EventModel::ReadFailed => ActionModel::Reinitialize,
    }
}

/// The actions of a whole run of observations, in order.
pub open spec fn run_actions(last: Seq<char>, evs: Seq<EventModel>) -> Seq<ActionModel>
    decreases evs.len(),
{
    if evs.len() == 0 {
        Seq::empty()
    } else {
        seq![step_action(last, evs[0])] + run_actions(step_state(last, evs[0]), evs.drop_first())
    }
}

/// The decision half of the sampling loop: it remembers the last observed
/// text and says, observation by observation, what the loop must do. The
/// loop around it only reads the source, sleeps, and carries the actions
/// out; no observation ever tells it to stop.
pub struct Monitor {
    last_seen: String,
}

impl Monitor {
    /// The last text the monitor has observed.
    pub closed spec fn last(self) -> Seq<char> {
        self.last_seen@
    }

    /// A monitor that has seen nothing yet.
    pub fn new() -> (m: Monitor)
        ensures
            m.last() == Seq::<char>::empty(),
    {
        Monitor { last_seen: String::new() }
    }

    /// Decides the action for one observation and updates the remembered
    /// text.
    pub fn observe(&mut self, event: SourceEvent) -> (a: SourceAction)
        ensures
            a@ == step_action(old(self).last(), event@),
            final(self).last() == step_state(old(self).last(), event@),
    {
        match event {
            SourceEvent::Read(content) => {
                if is_blank(content.as_str()) {
                    SourceAction::Idle
                } else if content == self.last_seen {
                    SourceAction::Idle
                } else {
                    self.last_seen = content.clone();
                    SourceAction::Forward(content)
                }
            },
            SourceEvent::ReadFailed => SourceAction::Reinitialize,
        }
    }
}

/// Law: against a source that fails `n` reads in a row and then yields text
/// that is non-blank and differs from the last observed one, the loop
/// reinitializes exactly `n` times and then forwards that text.
pub proof fn lemma_sampling_resilience(
    last: Seq<char>,
    evs: Seq<EventModel>,
    n: int,
    c: Seq<char>,
)
    requires
        0 <= n,
        evs.len() == n + 1,
        forall|i: int| 0 <= i < n ==> evs[i] == EventModel::ReadFailed,
        evs[n] == EventModel::Read(c),
        !blank(c),
        c != last,
    ensures
        run_actions(last, evs).len() == n + 1,
        forall|i: int| 0 <= i < n ==> run_actions(last, evs)[i] == ActionModel::Reinitialize,
        run_actions(last, evs)[n] == ActionModel::Forward(c),
    decreases n,
{
    let run = run_actions(last, evs);
    if n == 0 {
        assert(evs[0] == EventModel::Read(c));
        assert(evs.drop_first().len() == 0);
        assert(run_actions(step_state(last, evs[0]), evs.drop_first())
            =~= Seq::<ActionModel>::empty());
        assert(run[0] == step_action(last, evs[0]));
    } else {
        assert(evs[0] == EventModel::ReadFailed);
        let tail = evs.drop_first();
        assert(tail.len() == n);
        assert forall|i: int| 0 <= i < n - 1 implies tail[i] == EventModel::ReadFailed by {
            assert(tail[i] == evs[i + 1]);
        };
        assert(tail[n - 1] == evs[n]);
        assert(step_state(last, evs[0]) == last);
        lemma_sampling_resilience(last, tail, n - 1, c);
        assert(run == seq![ActionModel::Reinitialize] + run_actions(last, tail));
        assert forall|i: int| 0 <= i < n implies run[i] == ActionModel::Reinitialize by {
            if i > 0 {
                assert(run[i] == run_actions(last, tail)[i - 1]);
            }
        };
        assert(run[n] == run_actions(last, tail)[n - 1]);
    }
}

} // verus!
