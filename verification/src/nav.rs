//! The navigation state machine: the memos that were loaded, those of them
//! that are on show, the cursor into these, and the entry of a search line.
//!
//! A search never narrows what an earlier search left: each one goes through
//! the loaded memos again, so that a search for `all` brings every memo back.
//!
//! Every transition is a function from the state and one event to the next
//! state and an [`Action`] for whoever drives the terminal. The transitions
//! are stated on [`NavView`], the state as plain mathematical values.

use crate::event::{Event, KeyCode, KeyEvent, Modifiers, TermEvent, JUMP_STEPS, SEARCH_KEY};
use crate::filter::{all_token, filter_memos, filtered, is_all_query, lemma_all_keeps_list,
    lemma_filter_idempotent};
use crate::memo::{copy_memos, memo_views, Memo, MemoView};
use crate::text::{is_substring, lemma_substring_reflexive, string_of, views};
use vstd::prelude::*;

verus! {

/// The two modes of navigation.
#[derive(Clone, Copy, Debug, PartialEq, Eq, Structural)]
pub enum Mode {
    /// Keys move the cursor and trigger actions.
    Browsing,
    /// Keys are collected into a search line.
    SearchEntry,
}

/// What the driver of the terminal has to do after a transition.
#[derive(Clone, Copy, Debug, PartialEq, Eq, Structural)]
pub enum Action {
    /// Nothing but the next redraw.
    Redraw,
    /// Hand the character, with the terminal's cursor position, to the
    /// application's key handler.
    KeyHook(char),
    /// Run the periodic housekeeping.
    TickHook,
    /// A search line is being entered: feed raw terminal reports to
    /// `on_search_input` until the mode is `Browsing` again.
    ReadSearchLine,
    /// Treat the item at this index as a directory to descend into.
    EnterDir(usize),
    /// Restore the terminal and leave the loop.
    Restore,
}

/// The cursor one position towards the start, or where it is at the start.
pub open spec fn cursor_up(cursor: Option<nat>) -> Option<nat> {
    match cursor {
        Some(c) => Some(if c > 0 { (c - 1) as nat } else { 0 }),
        None => None,
    }
}

/// The cursor one position towards the end of a list of `len` items, or
/// where it is at the end.
pub open spec fn cursor_down(cursor: Option<nat>, len: nat) -> Option<nat> {
    match cursor {
        Some(c) => Some(if c + 1 < len { c + 1 } else { c }),
        None => None,
    }
}

/// The cursor brought back into a list of `len` items: none for an empty
/// list, else the old position or the last index, whichever is smaller.
pub open spec fn clamp_cursor(cursor: Option<nat>, len: nat) -> Option<nat> {
    if len == 0 {
        None
    } else {
        match cursor {
            Some(c) => Some(if c < len { c } else { (len - 1) as nat }),
            None => Some(0),
        }
    }
}

/// The query that an entered search line stands for: the line as the one
/// token, or `all` for an empty line.
pub open spec fn search_query(line: Seq<char>) -> Seq<Seq<char>> {
    if line.len() == 0 {
        seq![all_token()]
    } else {
        seq![line]
    }
}

/// The navigation state as plain values.
pub struct NavView {
    /// The memos that were loaded; a filter goes through these.
    pub source: Seq<MemoView>,
    /// The memos on show: those of `source` that the last filter kept.
    pub items: Seq<MemoView>,
    pub cursor: Option<nat>,
    pub mode: Mode,
    pub should_quit: bool,
    /// The search line entered so far; empty while browsing.
    pub line: Seq<char>,
}

impl NavView {
    /// The cursor is an index into the items, or absent when there are none;
    /// no search line is pending while browsing.
    pub open spec fn wf(self) -> bool {
        &&& self.cursor is None <==> self.items.len() == 0
        &&& self.cursor matches Some(c) ==> c < self.items.len()
        &&& self.mode == Mode::Browsing ==> self.line.len() == 0
    }

    /// The state a list of memos is first shown in.
    pub open spec fn initial(items: Seq<MemoView>) -> NavView {
        NavView {
            source: items,
            items,
            cursor: clamp_cursor(None, items.len()),
            mode: Mode::Browsing,
            should_quit: false,
            line: Seq::empty(),
        }
    }

    /// One step towards the start.
    pub open spec fn moved_up(self) -> NavView {
        NavView { cursor: cursor_up(self.cursor), ..self }
    }

    /// One step towards the end.
    pub open spec fn moved_down(self) -> NavView {
        NavView { cursor: cursor_down(self.cursor, self.items.len()), ..self }
    }

    /// `n` single steps towards the start.
    pub open spec fn moved_up_by(self, n: nat) -> NavView
        decreases n,
    {
        if n == 0 {
            self
        } else {
            self.moved_up().moved_up_by((n - 1) as nat)
        }
    }

    /// `n` single steps towards the end.
    pub open spec fn moved_down_by(self, n: nat) -> NavView
        decreases n,
    {
        if n == 0 {
            self
        } else {
            self.moved_down().moved_down_by((n - 1) as nat)
        }
    }

    /// The loaded memos filtered anew: on show are those that `query` keeps,
    /// the cursor clamped.
    pub open spec fn narrowed(self, query: Seq<Seq<char>>) -> NavView {
        let kept = filtered(self.source, query);
        NavView { items: kept, cursor: clamp_cursor(self.cursor, kept.len()), ..self }
    }

    /// Other memos loaded: all of them on show, the cursor clamped.
    pub open spec fn reloaded(self, items: Seq<MemoView>) -> NavView {
        NavView { source: items, items, cursor: clamp_cursor(self.cursor, items.len()), ..self }
    }

    /// The entered search line applied: back to browsing, on show what the
    /// query that the line stands for keeps of the loaded memos.
    pub open spec fn search_applied(self) -> NavView {
        NavView { mode: Mode::Browsing, line: Seq::empty(), ..self }.narrowed(
            search_query(self.line),
        )
    }

    /// The next state on a key press while browsing.
    pub open spec fn after_key(self, key: KeyEvent) -> NavView {
        match key.modifiers {
            Modifiers::Plain => match key.code {
                KeyCode::Char(c) => if c == SEARCH_KEY {
                    NavView { mode: Mode::SearchEntry, line: Seq::empty(), ..self }
                } else {
                    self
                },
                KeyCode::Left | KeyCode::Up => self.moved_up(),
                KeyCode::Right | KeyCode::Down => self.moved_down(),
                _ => self,
            },
            Modifiers::Control => match key.code {
                KeyCode::Char(c) => if c == 'd' {
                    self.moved_down_by(JUMP_STEPS as nat)
                } else if c == 'u' {
                    self.moved_up_by(JUMP_STEPS as nat)
                } else {
                    self
                },
                _ => self,
            },
            Modifiers::Other => self,
        }
    }

    /// What the driver has to do on a key press while browsing.
    pub open spec fn key_action(self, key: KeyEvent) -> Action {
        match key.modifiers {
            Modifiers::Plain => match key.code {
                KeyCode::Char(c) => if c == SEARCH_KEY {
                    Action::ReadSearchLine
                } else {
                    Action::KeyHook(c)
                },
                KeyCode::Enter => match self.cursor {
                    Some(c) => Action::EnterDir(c as usize),
                    None => Action::Redraw,
                },
                KeyCode::Esc => Action::Restore,
                _ => Action::Redraw,
            },
            _ => Action::Redraw,
        }
    }

    /// The next state on an event from the pump while browsing. A tick
    /// changes nothing.
    pub open spec fn after_event(self, event: Event) -> NavView {
        match event {
            Event::Input(key) => self.after_key(key),
            Event::Tick => self,
        }
    }

    /// What the driver has to do on an event from the pump while browsing.
    pub open spec fn event_action(self, event: Event) -> Action {
        match event {
            Event::Input(key) => self.key_action(key),
            Event::Tick => Action::TickHook,
        }
    }

    /// The next state on a raw terminal report while a search line is
    /// entered: a character joins the line, whatever modifiers are held;
    /// Enter, or a report that is no key press, ends the line and applies
    /// it; any other key changes nothing.
    pub open spec fn after_search_input(self, input: TermEvent) -> NavView {
        match input {
            TermEvent::Key(key) => match key.code {
                KeyCode::Char(c) => NavView { line: self.line.push(c), ..self },
                KeyCode::Enter => self.search_applied(),
                _ => self,
            },
            TermEvent::Other => self.search_applied(),
        }
    }
}

/// Moving the cursor keeps a valid state valid and never touches the memos.
pub proof fn lemma_moves_keep_wf(s: NavView, n: nat)
    requires
        s.wf(),
    ensures
        s.moved_up_by(n).wf(),
        s.moved_down_by(n).wf(),
        s.moved_up_by(n).items == s.items,
        s.moved_down_by(n).items == s.items,
        s.moved_up_by(n).source == s.source,
        s.moved_down_by(n).source == s.source,
        s.moved_up_by(n).mode == s.mode,
        s.moved_down_by(n).mode == s.mode,
    decreases n,
{
    if n > 0 {
        lemma_moves_keep_wf(s.moved_up(), (n - 1) as nat);
        lemma_moves_keep_wf(s.moved_down(), (n - 1) as nat);
    }
}

/// `n` steps down end `n` positions further, or at the last item; `n` steps
/// up end `n` positions back, or at the first item.
pub proof fn lemma_jump(s: NavView, n: nat)
    requires
        s.wf(),
        s.cursor is Some,
    ensures
        s.moved_down_by(n) == (NavView {
            cursor: Some(
                if s.cursor->0 + n < s.items.len() {
                    s.cursor->0 + n
                } else {
                    (s.items.len() - 1) as nat
                },
            ),
            ..s
        }),
        s.moved_up_by(n) == (NavView {
            cursor: Some(if s.cursor->0 >= n { (s.cursor->0 - n) as nat } else { 0 }),
            ..s
        }),
    decreases n,
{
    if n > 0 {
        lemma_jump(s.moved_down(), (n - 1) as nat);
        lemma_jump(s.moved_up(), (n - 1) as nat);
    }
}

/// After a filter the state is valid and the cursor is clamped: where the
/// filter leaves `m` items of `n`, `m < n`, the cursor is the smaller of its
/// old position and `m - 1` if `m > 0`, and absent if `m == 0`.
pub proof fn lemma_narrowed_cursor(s: NavView, query: Seq<Seq<char>>)
    requires
        s.wf(),
    ensures
        s.narrowed(query).wf(),
        s.narrowed(query).items == filtered(s.source, query),
        s.narrowed(query).cursor == clamp_cursor(s.cursor, s.narrowed(query).items.len()),
        ({
            let n = s.items.len();
            let m = s.narrowed(query).items.len();
            m < n ==> s.cursor is Some && s.narrowed(query).cursor == (if m > 0 {
                Some(if s.cursor->0 <= m - 1 { s.cursor->0 } else { (m - 1) as nat })
            } else {
                None
            })
        }),
{
}

/// The same filter twice in a row leaves what it leaves when applied once:
/// the same items and the same cursor.
pub proof fn lemma_narrowed_idempotent(s: NavView, query: Seq<Seq<char>>)
    requires
        s.wf(),
    ensures
        s.narrowed(query).narrowed(query) == s.narrowed(query),
{
}

/// What a filter leaves on show, the same filter keeps whole.
pub proof fn lemma_shown_items_pass(s: NavView, query: Seq<Seq<char>>)
    ensures
        filtered(s.narrowed(query).items, query) == s.narrowed(query).items,
{
    lemma_filter_idempotent(s.source, query);
}

/// A query that holds `all` brings every loaded memo back on show.
pub proof fn lemma_all_resets(s: NavView, query: Seq<Seq<char>>)
    requires
        is_all_query(query),
    ensures
        s.narrowed(query).items == s.source,
{
    lemma_all_keeps_list(s.source, query);
}

/// An empty search line brings every loaded memo back on show.
pub proof fn lemma_empty_line_keeps_all(s: NavView)
    requires
        s.line.len() == 0,
    ensures
        s.search_applied().items == s.source,
{
    let query = search_query(s.line);
    lemma_substring_reflexive(all_token());
    assert(is_substring(all_token(), query[0]));
    lemma_all_keeps_list(s.source, query);
}

/// The navigation state.
pub struct NavState {
    source: Vec<Memo>,
    items: Vec<Memo>,
    cursor: Option<usize>,
    mode: Mode,
    should_quit: bool,
    line: Vec<char>,
}

impl View for NavState {
    type V = NavView;

    closed spec fn view(&self) -> NavView {
        NavView {
            source: memo_views(self.source@),
            items: memo_views(self.items@),
            cursor: match self.cursor {
                Some(c) => Some(c as nat),
                None => None,
            },
            mode: self.mode,
            should_quit: self.should_quit,
            line: self.line@,
        }
    }
}

impl NavState {
    /// The state is valid: see [`NavView::wf`].
    pub open spec fn wf(&self) -> bool {
        self@.wf()
    }

    /// The state in which `memos` are first shown: browsing, the cursor on
    /// the first memo if there is one.
    pub fn new(memos: &Vec<Memo>) -> (state: NavState)
        ensures
            state.wf(),
            state@ == NavView::initial(memo_views(memos@)),
    {
        let items = copy_memos(memos);
        let cursor = if items.len() == 0 { None } else { Some(0usize) };
        NavState {
            source: copy_memos(memos),
            items,
            cursor,
            mode: Mode::Browsing,
            should_quit: false,
            line: Vec::new(),
        }
    }

    /// The memos on show.
    pub fn items(&self) -> (items: &Vec<Memo>)
        ensures
            memo_views(items@) == self@.items,
    {
        &self.items
    }

    /// The memos that were loaded.
    pub fn source(&self) -> (source: &Vec<Memo>)
        ensures
            memo_views(source@) == self@.source,
    {
        &self.source
    }

    /// The index of the selected memo, if there is any memo.
    pub fn cursor(&self) -> (cursor: Option<usize>)
        ensures
            cursor is Some <==> self@.cursor is Some,
            cursor matches Some(c) ==> self@.cursor == Some(c as nat),
    {
        self.cursor
    }

    /// The selected memo, if there is any memo.
    pub fn selected(&self) -> (memo: Option<&Memo>)
        requires
            self.wf(),
        ensures
            match memo {
                Some(m) => self@.cursor is Some && m@ == self@.items[self@.cursor->0 as int],
                None => self@.cursor is None,
            },
    {
        match self.cursor {
            Some(c) => Some(&self.items[c]),
            None => None,
        }
    }

    /// The mode the state is in.
    pub fn mode(&self) -> (mode: Mode)
        ensures
            mode == self@.mode,
    {
        self.mode
    }

    /// Whether the render loop has been asked to end.
    pub fn should_quit(&self) -> (quit: bool)
        ensures
            quit == self@.should_quit,
    {
        self.should_quit
    }

    /// The search line entered so far.
    pub fn search_line(&self) -> (line: String)
        ensures
            line@ == self@.line,
    {
        string_of(&self.line)
    }

    /// Asks the render loop to end after the current event.
    pub fn request_quit(&mut self)
        ensures
            final(self)@ == (NavView { should_quit: true, ..old(self)@ }),
    {
        self.should_quit = true;
    }

    /// Moves the cursor one memo up, unless it is on the first.
    pub fn on_up(&mut self)
        requires
            old(self).wf(),
        ensures
            final(self).wf(),
            final(self)@ == old(self)@.moved_up(),
    {
        match self.cursor {
            Some(c) => {
                if c > 0 {
                    self.cursor = Some(c - 1);
                }
            },
            None => {},
        }
    }

    /// Moves the cursor one memo down, unless it is on the last.
    pub fn on_down(&mut self)
        requires
            old(self).wf(),
        ensures
            final(self).wf(),
            final(self)@ == old(self)@.moved_down(),
    {
        match self.cursor {
            Some(c) => {
                assert(self@.cursor == Some(c as nat) && c < self.items.len());
                if c + 1 < self.items.len() {
                    self.cursor = Some(c + 1);
                }
            },
            None => {},
        }
    }

    /// Moves the cursor as `on_up` does.
    pub fn on_left(&mut self)
        requires
            old(self).wf(),
        ensures
            final(self).wf(),
            final(self)@ == old(self)@.moved_up(),
    {
        self.on_up()
    }

    /// Moves the cursor as `on_down` does.
    pub fn on_right(&mut self)
        requires
            old(self).wf(),
        ensures
            final(self).wf(),
            final(self)@ == old(self)@.moved_down(),
    {
        self.on_down()
    }

    /// The periodic housekeeping: leaves the state as it is.
    pub fn on_tick(&mut self)
        ensures
            final(self)@ == old(self)@,
    {
    }

    /// The directory that Enter asks to descend into: the selected item, if
    /// there is one. The state stays as it is.
    pub fn on_enter_dir(&self) -> (action: Action)
        ensures
            action == (match self@.cursor {
                Some(c) => Action::EnterDir(c as usize),
                None => Action::Redraw,
            }),
    {
        match self.cursor {
            Some(c) => Action::EnterDir(c),
            None => Action::Redraw,
        }
    }

    /// Filters the loaded memos anew: on show are those that the query
    /// `tags` keeps. The cursor is clamped.
    pub fn apply_filter(&mut self, tags: &Vec<String>)
        requires
            old(self).wf(),
        ensures
            final(self).wf(),
            final(self)@ == old(self)@.narrowed(views(tags@)),
    {
        proof {
            lemma_narrowed_cursor(self@, views(tags@));
        }
        let kept = filter_memos(&self.source, tags);
        self.cursor = clamped(self.cursor, kept.len());
        self.items = kept;
    }

    /// Filters the loaded memos anew by the search line `line`: by the line
    /// as the one token of the query, or by `all` if the line is empty.
    pub fn search_string_in_this_path(&mut self, line: &str)
        requires
            old(self).wf(),
        ensures
            final(self).wf(),
            final(self)@ == old(self)@.narrowed(search_query(line@)),
    {
        let query = query_of_line(line);
        self.apply_filter(&query);
    }

    /// Loads `memos` in the place of what was loaded, shows all of them and
    /// clamps the cursor.
    pub fn replace_items(&mut self, memos: &Vec<Memo>)
        requires
            old(self).wf(),
        ensures
            final(self).wf(),
            final(self)@ == old(self)@.reloaded(memo_views(memos@)),
    {
        let items = copy_memos(memos);
        self.cursor = clamped(self.cursor, items.len());
        self.source = copy_memos(memos);
        self.items = items;
    }

    /// One event from the pump while browsing: the state moves to
    /// `after_event`, and the result says what the driver has to do.
    pub fn dispatch(&mut self, event: Event) -> (action: Action)
        requires
            old(self).wf(),
            old(self)@.mode == Mode::Browsing,
        ensures
            final(self).wf(),
            final(self)@ == old(self)@.after_event(event),
            action == old(self)@.event_action(event),
    {
        match event {
            Event::Tick => {
                self.on_tick();
                Action::TickHook
            },
            Event::Input(key) => match key.modifiers {
                Modifiers::Plain => match key.code {
                    KeyCode::Char(c) => {
                        if c == SEARCH_KEY {
                            self.mode = Mode::SearchEntry;
                            self.line = Vec::new();
                            Action::ReadSearchLine
                        } else {
                            Action::KeyHook(c)
                        }
                    },
                    KeyCode::Left => {
                        self.on_left();
                        Action::Redraw
                    },
                    KeyCode::Up => {
                        self.on_up();
                        Action::Redraw
                    },
                    KeyCode::Right => {
                        self.on_right();
                        Action::Redraw
                    },
                    KeyCode::Down => {
                        self.on_down();
                        Action::Redraw
                    },
                    KeyCode::Enter => self.on_enter_dir(),
                    KeyCode::Esc => Action::Restore,
                    KeyCode::Other => Action::Redraw,
                },
                Modifiers::Control => {
                    match key.code {
                        KeyCode::Char(c) => {
                            if c == 'd' {
                                self.jump_down();
                            } else if c == 'u' {
                                self.jump_up();
                            }
                        },
                        _ => {},
                    }
                    Action::Redraw
                },
                Modifiers::Other => Action::Redraw,
            },
        }
    }

    /// `JUMP_STEPS` single steps down.
    fn jump_down(&mut self)
        requires
            old(self).wf(),
        ensures
            final(self).wf(),
            final(self)@ == old(self)@.moved_down_by(JUMP_STEPS as nat),
    {
        let mut done: usize = 0;
        while done < JUMP_STEPS
            invariant
                done <= JUMP_STEPS,
                self.wf(),
                self@.moved_down_by((JUMP_STEPS - done) as nat) == old(self)@.moved_down_by(
                    JUMP_STEPS as nat,
                ),
            decreases JUMP_STEPS - done,
        {
            self.on_down();
            done = done + 1;
        }
    }

    /// `JUMP_STEPS` single steps up.
    fn jump_up(&mut self)
        requires
            old(self).wf(),
        ensures
            final(self).wf(),
            final(self)@ == old(self)@.moved_up_by(JUMP_STEPS as nat),
    {
        let mut done: usize = 0;
        while done < JUMP_STEPS
            invariant
                done <= JUMP_STEPS,
                self.wf(),
                self@.moved_up_by((JUMP_STEPS - done) as nat) == old(self)@.moved_up_by(
                    JUMP_STEPS as nat,
                ),
            decreases JUMP_STEPS - done,
        {
            self.on_up();
            done = done + 1;
        }
    }

    /// One raw terminal report while a search line is entered: the state
    /// moves to `after_search_input`. The result is true when the line is
    /// complete and has been applied, so that the mode is `Browsing` again.
    pub fn on_search_input(&mut self, input: TermEvent) -> (complete: bool)
        requires
            old(self).wf(),
            old(self)@.mode == Mode::SearchEntry,
        ensures
            final(self).wf(),
            final(self)@ == old(self)@.after_search_input(input),
            complete == (final(self)@.mode == Mode::Browsing),
    {
        match input {
            TermEvent::Key(key) => match key.code {
                KeyCode::Char(c) => {
                    self.line.push(c);
                    false
                },
                KeyCode::Enter => {
                    self.finish_search();
                    true
                },
                _ => false,
            },
            TermEvent::Other => {
                self.finish_search();
                true
            },
        }
    }

    /// Applies the entered line and goes back to browsing.
    fn finish_search(&mut self)
        requires
            old(self).wf(),
        ensures
            final(self).wf(),
            final(self)@ == old(self)@.search_applied(),
    {
        let line = string_of(&self.line);
        self.mode = Mode::Browsing;
        self.line = Vec::new();
        self.search_string_in_this_path(line.as_str());
    }
}

/// The query that the search line `line` stands for: the line as the one
/// token, or `all` for an empty line.
pub fn query_of_line(line: &str) -> (query: Vec<String>)
    ensures
        views(query@) == search_query(line@),
{
    let mut query: Vec<String> = Vec::new();
    if line.is_empty() {
        query.push("all".to_owned());
    } else {
        query.push(line.to_owned());
    }
    assert(views(query@) =~= search_query(line@));
    query
}

/// The cursor brought back into a list of `len` items.
fn clamped(cursor: Option<usize>, len: usize) -> (out: Option<usize>)
    ensures
        out is Some <==> len > 0,
        (match out {
            Some(c) => Some(c as nat),
            None => None,
        }) == clamp_cursor(
            match cursor {
                Some(c) => Some(c as nat),
                None => None,
            },
            len as nat,
        ),
{
    if len == 0 {
        None
    } else {
        match cursor {
            Some(c) => Some(if c < len { c } else { len - 1 }),
            None => Some(0),
        }
    }
}

} // verus!
