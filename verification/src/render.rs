//! The render loop's bookkeeping: one event at a time into the navigation
//! state, and the terminal restored exactly once on the way out.
//!
//! The loop draws, waits for an event, dispatches it, performs the action it
//! is told, and then settles. It ends in one of two ways: on Escape, or when
//! the quit flag is found set after an event. Either way the driver is told
//! `Action::Restore` once, runs `restoration_steps`, and returns.

use crate::event::{Event, TermEvent, JUMP_STEPS};
use crate::memo::{memo_views, Memo};
use crate::nav::{lemma_moves_keep_wf, lemma_narrowed_cursor, search_query, Action, Mode,
    NavState, NavView};
use vstd::prelude::*;

verus! {

/// One step of giving the terminal back to the user.
#[derive(Clone, Copy, Debug, PartialEq, Eq, Structural)]
pub enum RestoreStep {
    DisableRawMode,
    LeaveAlternateScreen,
    DisableMouseCapture,
    ShowCursor,
}

/// The steps that give the terminal back, in the order they are taken.
pub open spec fn restoration() -> Seq<RestoreStep> {
    seq![
        RestoreStep::DisableRawMode,
        RestoreStep::LeaveAlternateScreen,
        RestoreStep::DisableMouseCapture,
        RestoreStep::ShowCursor,
    ]
}

/// The steps that give the terminal back, in the order they are taken. Both
/// ways out of the loop take these and no others.
pub fn restoration_steps() -> (steps: Vec<RestoreStep>)
    ensures
        steps@ == restoration(),
{
    let mut steps: Vec<RestoreStep> = Vec::new();
    steps.push(RestoreStep::DisableRawMode);
    steps.push(RestoreStep::LeaveAlternateScreen);
    steps.push(RestoreStep::DisableMouseCapture);
    steps.push(RestoreStep::ShowCursor);
    assert(steps@ =~= restoration());
    steps
}

/// What one turn of the loop takes in: the event from the pump, used while
/// browsing; the raw terminal report, used while a search line is entered;
/// and whether the action's handler asked to quit.
pub struct Turn {
    pub event: Event,
    pub report: TermEvent,
    pub hook_quits: bool,
}

/// The loop's state as plain values.
pub struct SessionView {
    pub nav: NavView,
    /// The loop has ended.
    pub exited: bool,
    /// How often the driver has been told to restore the terminal.
    pub restorations: nat,
}

impl SessionView {
    /// The navigation state is valid, and the terminal has been restored
    /// once if the loop has ended and never if it has not.
    pub open spec fn wf(self) -> bool {
        &&& self.nav.wf()
        &&& self.restorations == (if self.exited { 1nat } else { 0nat })
    }

    /// A loop that has not ended, around the navigation state `nav`.
    pub open spec fn initial(nav: NavView) -> SessionView {
        SessionView { nav, exited: false, restorations: 0 }
    }

    /// The loop ended and the driver told to restore the terminal.
    pub open spec fn left(self) -> SessionView {
        SessionView { exited: true, restorations: self.restorations + 1, ..self }
    }

    /// After an event from the pump while browsing. Escape ends the loop.
    pub open spec fn after_event(self, event: Event) -> SessionView {
        let next = SessionView { nav: self.nav.after_event(event), ..self };
        if self.nav.event_action(event) == Action::Restore {
            next.left()
        } else {
            next
        }
    }

    /// After a raw terminal report while a search line is entered.
    pub open spec fn after_search_input(self, input: TermEvent) -> SessionView {
        SessionView { nav: self.nav.after_search_input(input), ..self }
    }

    /// After a handler asked to quit.
    pub open spec fn quit_requested(self) -> SessionView {
        SessionView { nav: NavView { should_quit: true, ..self.nav }, ..self }
    }

    /// After the check that follows every event: a set quit flag ends a
    /// loop that has not ended yet.
    pub open spec fn settled(self) -> SessionView {
        if !self.exited && self.nav.should_quit {
            self.left()
        } else {
            self
        }
    }

    /// After one turn of the loop. A loop that has ended takes nothing in.
    pub open spec fn after_turn(self, turn: Turn) -> SessionView {
        if self.exited {
            self
        } else {
            let dispatched = if self.nav.mode == Mode::Browsing {
                self.after_event(turn.event)
            } else {
                self.after_search_input(turn.report)
            };
            if dispatched.exited {
                dispatched
            } else if turn.hook_quits {
                dispatched.quit_requested().settled()
            } else {
                dispatched.settled()
            }
        }
    }

    /// After the turns of `turns`, one after the other.
    pub open spec fn after_turns(self, turns: Seq<Turn>) -> SessionView
        decreases turns.len(),
    {
        if turns.len() == 0 {
            self
        } else {
            self.after_turn(turns[0]).after_turns(turns.drop_first())
        }
    }
}

/// Every transition of the navigation state keeps a valid state valid.
pub proof fn lemma_nav_steps_keep_wf(nav: NavView, event: Event, input: TermEvent)
    requires
        nav.wf(),
    ensures
        nav.mode == Mode::Browsing ==> nav.after_event(event).wf(),
        nav.mode == Mode::SearchEntry ==> nav.after_search_input(input).wf(),
{
    lemma_moves_keep_wf(nav, JUMP_STEPS as nat);
    let cleared = NavView { mode: Mode::Browsing, line: Seq::empty(), ..nav };
    lemma_narrowed_cursor(cleared, search_query(nav.line));
}

/// One turn keeps a valid state valid, whichever way the loop is left.
pub proof fn lemma_turn_keeps_wf(s: SessionView, turn: Turn)
    requires
        s.wf(),
    ensures
        s.after_turn(turn).wf(),
        s.exited ==> s.after_turn(turn) == s,
{
    lemma_nav_steps_keep_wf(s.nav, turn.event, turn.report);
}

/// Whatever the loop takes in, and whether it ends on Escape or on the quit
/// flag, the driver is told to restore the terminal exactly once if the loop
/// has ended, and not at all while it runs.
pub proof fn lemma_restored_exactly_once(s: SessionView, turns: Seq<Turn>)
    requires
        s.wf(),
        !s.exited,
    ensures
        s.after_turns(turns).wf(),
        s.after_turns(turns).exited ==> s.after_turns(turns).restorations == 1,
        !s.after_turns(turns).exited ==> s.after_turns(turns).restorations == 0,
{
    lemma_turns_keep_wf(s, turns);
}

proof fn lemma_turns_keep_wf(s: SessionView, turns: Seq<Turn>)
    requires
        s.wf(),
    ensures
        s.after_turns(turns).wf(),
    decreases turns.len(),
{
    if turns.len() > 0 {
        lemma_turn_keeps_wf(s, turns[0]);
        lemma_turns_keep_wf(s.after_turn(turns[0]), turns.drop_first());
    }
}

/// Once the loop has ended nothing that is fed to it changes it: no second
/// restoration follows the first.
pub proof fn lemma_nothing_after_exit(s: SessionView, turns: Seq<Turn>)
    requires
        s.exited,
    ensures
        s.after_turns(turns) == s,
    decreases turns.len(),
{
    if turns.len() > 0 {
        lemma_nothing_after_exit(s, turns.drop_first());
    }
}

/// The render loop's state: the navigation state and whether the loop has
/// ended.
pub struct Session {
    nav: NavState,
    exited: bool,
    restorations: Ghost<nat>,
}

impl View for Session {
    type V = SessionView;

    closed spec fn view(&self) -> SessionView {
        SessionView { nav: self.nav@, exited: self.exited, restorations: self.restorations@ }
    }
}

impl Session {
    /// The state is valid: see [`SessionView::wf`].
    pub open spec fn wf(&self) -> bool {
        self@.wf()
    }

    /// A running loop that shows `memos`.
    pub fn new(memos: &Vec<Memo>) -> (session: Session)
        ensures
            session.wf(),
            session@ == SessionView::initial(NavView::initial(memo_views(memos@))),
    {
        Session { nav: NavState::new(memos), exited: false, restorations: Ghost(0) }
    }

    /// The navigation state, to draw from.
    pub fn nav(&self) -> (nav: &NavState)
        ensures
            nav@ == self@.nav,
    {
        &self.nav
    }

    /// Whether the loop still runs.
    pub fn is_running(&self) -> (running: bool)
        ensures
            running == !self@.exited,
    {
        !self.exited
    }

    /// Whether the next input is a raw terminal report for the search line
    /// rather than an event from the pump.
    pub fn in_search_entry(&self) -> (searching: bool)
        ensures
            searching == (self@.nav.mode == Mode::SearchEntry),
    {
        self.nav.mode() == Mode::SearchEntry
    }

    /// One event from the pump while browsing. On `Action::Restore` the loop
    /// has ended: the driver restores the terminal and returns.
    pub fn dispatch(&mut self, event: Event) -> (action: Action)
        requires
            old(self).wf(),
            !old(self)@.exited,
            old(self)@.nav.mode == Mode::Browsing,
        ensures
            final(self).wf(),
            final(self)@ == old(self)@.after_event(event),
            action == old(self)@.nav.event_action(event),
            action == Action::Restore <==> final(self)@.exited,
    {
        let action = self.nav.dispatch(event);
        if action == Action::Restore {
            self.exited = true;
            self.restorations = Ghost(self.restorations@ + 1);
        }
        action
    }

    /// One raw terminal report while a search line is entered. The result
    /// is true when the line is complete and browsing goes on.
    pub fn search_input(&mut self, input: TermEvent) -> (complete: bool)
        requires
            old(self).wf(),
            !old(self)@.exited,
            old(self)@.nav.mode == Mode::SearchEntry,
        ensures
            final(self).wf(),
            final(self)@ == old(self)@.after_search_input(input),
            complete == (final(self)@.nav.mode == Mode::Browsing),
    {
        self.nav.on_search_input(input)
    }

    /// Asks the loop to end after the current event.
    pub fn request_quit(&mut self)
        requires
            old(self).wf(),
        ensures
            final(self).wf(),
            final(self)@ == old(self)@.quit_requested(),
    {
        self.nav.request_quit();
    }

    /// Loads `memos` in the place of what was loaded, shows all of them and
    /// clamps the cursor.
    pub fn replace_items(&mut self, memos: &Vec<Memo>)
        requires
            old(self).wf(),
        ensures
            final(self).wf(),
            final(self)@ == (SessionView {
                nav: old(self)@.nav.reloaded(memo_views(memos@)),
                ..old(self)@
            }),
    {
        self.nav.replace_items(memos);
    }

    /// The check after every event. The result is `Action::Restore` when
    /// the quit flag ends a loop that had not ended yet, and
    /// `Action::Redraw` otherwise: also when the loop has ended before, so
    /// that the terminal is never restored twice.
    pub fn settle(&mut self) -> (action: Action)
        requires
            old(self).wf(),
        ensures
            final(self).wf(),
            final(self)@ == old(self)@.settled(),
            action == (if !old(self)@.exited && old(self)@.nav.should_quit {
                Action::Restore
            } else {
                Action::Redraw
            }),
    {
        if !self.exited && self.nav.should_quit() {
            self.exited = true;
            self.restorations = Ghost(self.restorations@ + 1);
            Action::Restore
        } else {
            Action::Redraw
        }
    }
}

} // verus!
