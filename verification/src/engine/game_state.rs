//! The screens of the game by name, and which of them is shown.

use vstd::prelude::*;
use vstd::string::StringExecFns;
use crate::util::{Error, Result};

verus! {

/// A screen of the game.
#[derive(Debug, Clone, Copy, PartialEq, Eq, Hash, Structural)]
pub enum StateId {
    Menu,
    Playing,
    Paused,
    GameOver,
    Loading,
    Settings,
}

impl StateId {
    /// The name of the screen in lower case.
    pub open spec fn name(self) -> Seq<char> {
        match self {
            StateId::Menu => "menu"@,
            StateId::Playing => "playing"@,
            StateId::Paused => "paused"@,
            StateId::GameOver => "game_over"@,
            StateId::Loading => "loading"@,
            StateId::Settings => "settings"@,
        }
    }

    /// The name of the screen in lower case.
    pub fn as_str(&self) -> (name: &'static str)
        ensures
            name@ == self.name(),
    {
        match self {
            StateId::Menu => "menu",
            StateId::Playing => "playing",
            StateId::Paused => "paused",
            StateId::GameOver => "game_over",
            StateId::Loading => "loading",
            StateId::Settings => "settings",
        }
    }
}

impl StateId {
    /// The place of the screen in the order in which the screens are
    /// declared.
    pub open spec fn ordinal(self) -> int {
        match self {
            StateId::Menu => 0,
            StateId::Playing => 1,
            StateId::Paused => 2,
            StateId::GameOver => 3,
            StateId::Loading => 4,
            StateId::Settings => 5,
        }
    }

    /// The place of the screen in the order in which the screens are
    /// declared.
    pub fn index(self) -> (i: usize)
        ensures
            i == self.ordinal(),
    {
        match self {
            StateId::Menu => 0,
            StateId::Playing => 1,
            StateId::Paused => 2,
            StateId::GameOver => 3,
            StateId::Loading => 4,
            StateId::Settings => 5,
        }
    }

    /// The name of the screen as it is declared.
    pub open spec fn title(self) -> Seq<char> {
        match self {
            StateId::Menu => "Menu"@,
            StateId::Playing => "Playing"@,
            StateId::Paused => "Paused"@,
            StateId::GameOver => "GameOver"@,
            StateId::Loading => "Loading"@,
            StateId::Settings => "Settings"@,
        }
    }

    /// The name of the screen as it is declared.
    pub fn as_title(&self) -> (name: &'static str)
        ensures
            name@ == self.title(),
    {
        match self {
            StateId::Menu => "Menu",
            StateId::Playing => "Playing",
            StateId::Paused => "Paused",
            StateId::GameOver => "GameOver",
            StateId::Loading => "Loading",
            StateId::Settings => "Settings",
        }
    }
}

/// What a change of screen asks of the program: to leave the screen that
/// was shown, where there was one, and to enter another.
#[derive(Debug, Clone, Copy, PartialEq, Eq, Structural)]
pub struct Transition {
    pub leave: Option<StateId>,
    pub enter: StateId,
}

/// What a tracker holds.
pub struct TrackerView {
    /// For each screen in turn, whether the program has it.
    pub known: Seq<bool>,
    /// The screen that is shown.
    pub current: Option<StateId>,
    /// The screen that was asked for and is not yet shown.
    pub next: Option<StateId>,
}

impl TrackerView {
    /// Whether the program has a screen.
    pub open spec fn has(self, id: StateId) -> bool {
        self.known[id.ordinal()]
    }
}

/// Keeps track of which screen is shown and which was asked for. The
/// screens themselves are the program's.
#[derive(Debug, Clone)]
pub struct StateTracker {
    known: Vec<bool>,
    current: Option<StateId>,
    next: Option<StateId>,
}

impl View for StateTracker {
    type V = TrackerView;

    closed spec fn view(&self) -> TrackerView {
        TrackerView { known: self.known@, current: self.current, next: self.next }
    }
}

impl StateTracker {
    /// There is a place for each screen.
    pub closed spec fn wf(&self) -> bool {
        self.known@.len() == 6
    }

    /// A tracker that knows of no screen and shows none.
    pub fn new() -> (tracker: Self)
        ensures
            tracker.wf(),
            forall|id: StateId| !(#[trigger] tracker@.has(id)),
            tracker@.current is None,
            tracker@.next is None,
    {
        let mut known: Vec<bool> = Vec::new();
        let mut i: usize = 0;
        while i < 6
            invariant
                i <= 6,
                known@.len() == i,
                forall|k: int| 0 <= k < i ==> !known@[k],
            decreases 6 - i,
        {
            known.push(false);
            i += 1;
        }
        Self { known, current: None, next: None }
    }

    /// Takes note that the program has a screen.
    pub fn add_state(&mut self, id: StateId)
        requires
            old(self).wf(),
        ensures
            final(self).wf(),
            final(self)@.has(id),
            forall|other: StateId|
                other != id ==> #[trigger] final(self)@.has(other) == old(self)@.has(other),
            final(self)@.current == old(self)@.current,
            final(self)@.next == old(self)@.next,
    {
        proof {
            assert forall|other: StateId| other != id implies other.ordinal() != id.ordinal() by {}
        }
        self.known.set(id.index(), true);
    }

    /// Takes note that the program no longer has a screen; says whether it
    /// had it.
    pub fn remove_state(&mut self, id: StateId) -> (had: bool)
        requires
            old(self).wf(),
        ensures
            final(self).wf(),
            had == old(self)@.has(id),
            !final(self)@.has(id),
            forall|other: StateId|
                other != id ==> #[trigger] final(self)@.has(other) == old(self)@.has(other),
            final(self)@.current == old(self)@.current,
            final(self)@.next == old(self)@.next,
    {
        proof {
            assert forall|other: StateId| other != id implies other.ordinal() != id.ordinal() by {}
        }
        let had = self.known[id.index()];
        self.known.set(id.index(), false);
        had
    }

    /// Whether the program has a screen.
    pub fn has_state(&self, id: StateId) -> (has: bool)
        requires
            self.wf(),
        ensures
            has == self@.has(id),
    {
        self.known[id.index()]
    }

    /// Asks for a screen: it is shown at the next change. A screen that
    /// the program does not have cannot be asked for.
    pub fn set_state(&mut self, id: StateId) -> (done: Result<()>)
        requires
            old(self).wf(),
        ensures
            final(self).wf(),
            done is Ok <==> old(self)@.has(id),
            done is Ok ==> final(self)@ == (TrackerView { next: Some(id), ..old(self)@ }),
            done is Err ==> final(self)@ == old(self)@ && done->Err_0 is GameLogic
                && done->Err_0->GameLogic_0@ == "State "@ + id.title() + " not found"@,
    {
        if !self.known[id.index()] {
            return Err(
                Error::GameLogic(
                    String::from_str("State ").concat(id.as_title()).concat(" not found"),
                ),
            );
        }
        self.next = Some(id);
        Ok(())
    }

    /// Takes up the change that was asked for, and says what it asks of
    /// the program; `None`, and nothing changes, where no change was asked
    /// for. The screen shown stays the same until the change is finished.
    pub fn begin_transition(&mut self) -> (change: Option<Transition>)
        ensures
            final(self).wf() == old(self).wf(),
            final(self)@ == (TrackerView { next: None, ..old(self)@ }),
            change == match old(self)@.next {
                Some(next) => Some(Transition { leave: old(self)@.current, enter: next }),
                None => None,
            },
    {
        match self.next {
            Some(next) => {
                self.next = None;
                Some(Transition { leave: self.current, enter: next })
            },
            None => None,
        }
    }

    /// Finishes a change: the screen that was entered is the one shown.
    pub fn finish_transition(&mut self, change: Transition)
        ensures
            final(self).wf() == old(self).wf(),
            final(self)@ == (TrackerView { current: Some(change.enter), ..old(self)@ }),
    {
        self.current = Some(change.enter);
    }

    /// The screen that is shown.
    pub fn current_state_id(&self) -> (id: Option<StateId>)
        ensures
            id == self@.current,
    {
        self.current
    }
}

} // verus!
