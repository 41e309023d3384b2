//! The state of the terminal interface and every change that a key press, a
//! connection attempt or an arriving event makes to it.

use vstd::prelude::*;
use crate::json::{event_response_status, response_status};
use crate::render::{detail_end_scroll, end_scroll};
use crate::types::TailEventMessage;

verus! {

/// Which screen the interface shows.
#[derive(Debug)]
pub enum AppState {
    /// Choosing among these Workers.
    SelectingWorker(Vec<String>),
    /// Opening the tail session of the chosen Worker.
    Connecting,
    /// Showing the event stream.
    Viewing,
}

impl AppState {
    /// The Workers offered for choice: those of the selection screen, none on
    /// the other screens.
    pub open spec fn spec_workers(self) -> Seq<String> {
        match self {
            AppState::SelectingWorker(workers) => workers@,
            _ => Seq::empty(),
        }
    }

    /// The Workers offered for choice.
    pub fn get_workers(&self) -> (r: &[String])
        ensures
            r@ == self.spec_workers(),
    {
        match self {
            AppState::SelectingWorker(workers) => workers.as_slice(),
            _ => &[],
        }
    }
}

/// The highlighted row of a list, if any.
#[derive(Debug, Clone, Copy)]
pub struct ListState {
    selected: Option<usize>,
}

impl View for ListState {
    type V = Option<usize>;

    closed spec fn view(&self) -> Option<usize> {
        self.selected
    }
}

impl ListState {
    /// The highlighted row.
    pub fn selected(&self) -> (r: Option<usize>)
        ensures
            r == self@,
    {
        self.selected
    }

    /// Highlights a row, or none.
    pub fn select(&mut self, index: Option<usize>)
        ensures
            final(self)@ == index,
    {
        self.selected = index;
    }
}

impl Default for ListState {
    fn default() -> (r: ListState)
        ensures
            r@ is None,
    {
        ListState { selected: None }
    }
}

/// How many events have shown each class of HTTP status.
#[derive(Debug, Clone, Copy, PartialEq, Eq, Structural)]
pub struct StatusCounts {
    /// 2xx answers.
    pub success: usize,
    /// 4xx answers.
    pub client_err: usize,
    /// 5xx answers.
    pub server_err: usize,
    /// Every other status.
    pub other: usize,
}

impl Default for StatusCounts {
    fn default() -> (r: StatusCounts)
        ensures
            r == (StatusCounts { success: 0, client_err: 0, server_err: 0, other: 0 }),
    {
        StatusCounts { success: 0, client_err: 0, server_err: 0, other: 0 }
    }
}

/// Which events the log list shows, by HTTP status.
#[derive(Debug, Clone, Copy, PartialEq, Eq, Structural)]
pub enum StatusFilter {
    /// 2xx only.
    Success,
    /// 4xx only.
    ClientErr,
    /// 5xx only.
    ServerErr,
    /// Events with no status, or with one that is not 2xx, 4xx or 5xx.
    Other,
    /// Every event.
    All,
}

/// The HTTP status of an event: `response.status` of its event record.
pub open spec fn log_status(log: TailEventMessage) -> Option<u64> {
    match log.event {
        Some(event) => response_status(event),
        None => None,
    }
}

/// Whether the list shows an event of this status under this filter (no
/// filter shows every event).
pub open spec fn filter_admits(filter: Option<StatusFilter>, status: Option<u64>) -> bool {
    match filter {
        Some(StatusFilter::Success) => status matches Some(s) && 200 <= s < 300,
        Some(StatusFilter::ClientErr) => status matches Some(s) && 400 <= s < 500,
        Some(StatusFilter::ServerErr) => status matches Some(s) && 500 <= s < 600,
        Some(StatusFilter::Other) => match status {
            Some(s) => !(200 <= s < 300 || 400 <= s < 600),
            None => true,
        },
        Some(StatusFilter::All) | None => true,
    }
}

/// The positions, in increasing order, of the events that the filter admits.
pub open spec fn matching_indices(logs: Seq<TailEventMessage>, filter: Option<StatusFilter>) -> Seq<usize>
    decreases logs.len(),
{
    if logs.len() == 0 {
        Seq::empty()
    } else {
        let earlier = matching_indices(logs.drop_last(), filter);
        if filter_admits(filter, log_status(logs.last())) {
            earlier.push((logs.len() - 1) as usize)
        } else {
            earlier
        }
    }
}

/// The counter that an event of status `s` adds to: 0 for 2xx, 1 for 4xx, 2
/// for 5xx, 3 for anything else.
pub open spec fn status_bucket(s: u64) -> int {
    if 200 <= s <= 299 {
        0
    } else if 400 <= s <= 499 {
        1
    } else if 500 <= s <= 599 {
        2
    } else {
        3
    }
}

/// The counts after one event of status `status` (an event without a status
/// is not counted).
pub open spec fn counted(c: StatusCounts, status: Option<u64>) -> StatusCounts {
    match status {
        None => c,
        Some(s) => {
            let b = status_bucket(s);
            if b == 0 {
                StatusCounts { success: (c.success + 1) as usize, ..c }
            } else if b == 1 {
                StatusCounts { client_err: (c.client_err + 1) as usize, ..c }
            } else if b == 2 {
                StatusCounts { server_err: (c.server_err + 1) as usize, ..c }
            } else {
                StatusCounts { other: (c.other + 1) as usize, ..c }
            }
        },
    }
}

/// Whether the counter that an event of status `status` adds to has room.
pub open spec fn can_count(c: StatusCounts, status: Option<u64>) -> bool {
    match status {
        None => true,
        Some(s) => {
            let b = status_bucket(s);
            if b == 0 {
                c.success < usize::MAX
            } else if b == 1 {
                c.client_err < usize::MAX
            } else if b == 2 {
                c.server_err < usize::MAX
            } else {
                c.other < usize::MAX
            }
        },
    }
}

/// The highlighted row after the list changed to `len` rows: a highlight
/// past the end goes back to the first row.
pub open spec fn clamp_selection(selected: Option<usize>, len: nat) -> Option<usize> {
    match selected {
        Some(s) => if s >= len { Some(0usize) } else { Some(s) },
        None => None,
    }
}

/// The row after moving down in a list of `n > 0` rows, wrapping from the
/// last to the first; from no highlight, the first row.
pub open spec fn next_index(selected: Option<usize>, n: nat) -> usize {
    match selected {
        Some(i) => if i >= n - 1 { 0usize } else { (i + 1) as usize },
        None => 0usize,
    }
}

/// The row after moving up in a list of `n > 0` rows, wrapping from the
/// first to the last; from no highlight, the first row.
pub open spec fn previous_index(selected: Option<usize>, n: nat) -> usize {
    match selected {
        Some(i) => if i == 0 { (n - 1) as usize } else { (i - 1) as usize },
        None => 0usize,
    }
}

/// A key press, as far as the interface tells keys apart.
#[derive(Debug, Clone, Copy, PartialEq, Eq, Structural)]
pub enum Key {
    Char(char),
    Enter,
    Up,
    Down,
    Left,
    Right,
    PageUp,
    PageDown,
    Tab,
    Home,
    End,
    Other,
}

/// The whole state of the interface.
#[derive(Debug)]
pub struct App {
    /// Every event received, oldest first.
    pub logs: Vec<TailEventMessage>,
    /// Positions in `logs` of the events that the active filter admits.
    pub filtered_logs: Vec<usize>,
    /// Highlight in the Worker list.
    pub list_state: ListState,
    /// Highlight in the log list.
    pub log_state: ListState,
    /// Whether the interface is to close.
    pub should_quit: bool,
    /// The current screen.
    pub state: AppState,
    /// The Worker chosen for watching.
    pub selected_worker: Option<String>,
    /// Whether the detail pane is open.
    pub show_details: bool,
    /// Lines scrolled in the detail pane.
    pub detail_scroll: u16,
    /// Whether the detail pane has the focus.
    pub detail_focused: bool,
    /// Counts of the statuses seen.
    pub status_counts: StatusCounts,
    /// The active status filter.
    pub active_filter: Option<StatusFilter>,
    /// The Workers of the selection screen, kept while connecting so that a
    /// failed connection can offer them again.
    pub offered_workers: Vec<String>,
}

impl App {
    /// The log list shows exactly the events that the active filter admits.
    pub open spec fn filter_consistent(self) -> bool {
        self.filtered_logs@ == matching_indices(self.logs@, self.active_filter)
    }

    /// The detail pane has the focus only while it is open.
    pub open spec fn focus_consistent(self) -> bool {
        self.detail_focused ==> self.show_details
    }

    /// `new` is `old` with the filter re-applied: the list is recomputed from
    /// the events and the filter, and a log highlight past its end returns to
    /// the first row.
    pub open spec fn refiltered(old: App, new: App) -> bool {
        &&& new == (App { filtered_logs: new.filtered_logs, log_state: new.log_state, ..old })
        &&& new.filtered_logs@ == matching_indices(old.logs@, old.active_filter)
        &&& new.log_state@ == clamp_selection(old.log_state@, new.filtered_logs@.len())
    }

    /// `new` is `old` after moving down in the Worker list.
    pub open spec fn moved_next(old: App, new: App) -> bool {
        let n = old.state.spec_workers().len();
        if n == 0 {
            new == old
        } else {
            &&& new == (App { list_state: new.list_state, ..old })
            &&& new.list_state@ == Some(next_index(old.list_state@, n))
        }
    }

    /// `new` is `old` after moving up in the Worker list.
    pub open spec fn moved_previous(old: App, new: App) -> bool {
        let n = old.state.spec_workers().len();
        if n == 0 {
            new == old
        } else {
            &&& new == (App { list_state: new.list_state, ..old })
            &&& new.list_state@ == Some(previous_index(old.list_state@, n))
        }
    }

    /// `new` is `old` after moving down in the log list (the rows shown,
    /// wrapping from the last to the first), with the detail pane scrolled
    /// back to its top.
    pub open spec fn moved_next_log(old: App, new: App) -> bool {
        let n = old.filtered_logs@.len();
        if n == 0 {
            new == old
        } else {
            &&& new == (App { log_state: new.log_state, detail_scroll: 0, ..old })
            &&& new.log_state@ == Some(next_index(old.log_state@, n))
        }
    }

    /// `new` is `old` after moving up in the log list (the rows shown,
    /// wrapping from the first to the last), with the detail pane scrolled
    /// back to its top.
    pub open spec fn moved_previous_log(old: App, new: App) -> bool {
        let n = old.filtered_logs@.len();
        if n == 0 {
            new == old
        } else {
            &&& new == (App { log_state: new.log_state, detail_scroll: 0, ..old })
            &&& new.log_state@ == Some(previous_index(old.log_state@, n))
        }
    }

    /// `new` is `old` after choosing the highlighted Worker: where a Worker
    /// is highlighted on the selection screen, it becomes the chosen one, the
    /// interface starts connecting (keeping the list of Workers offered), and
    /// the filter "all" is applied; otherwise nothing changes.
    pub open spec fn chose_worker(old: App, new: App) -> bool {
        match old.state {
            AppState::SelectingWorker(workers) => match old.list_state@ {
                Some(s) if s < workers@.len() => {
                    let mid = App {
                        selected_worker: Some(workers@[s as int]),
                        state: AppState::Connecting,
                        active_filter: Some(StatusFilter::All),
                        offered_workers: workers,
                        ..old
                    };
                    Self::refiltered(mid, new)
                },
                _ => new == old,
            },
            _ => new == old,
        }
    }

    /// `new` is `old` with the filter set to `filter` and re-applied.
    pub open spec fn filter_set(old: App, filter: Option<StatusFilter>, new: App) -> bool {
        Self::refiltered(App { active_filter: filter, ..old }, new)
    }

    /// `new` is `old` with `filter` switched: off where it is the active one,
    /// on otherwise.
    pub open spec fn filter_toggled(old: App, filter: StatusFilter, new: App) -> bool {
        if old.active_filter == Some(filter) {
            Self::filter_set(old, None, new)
        } else {
            Self::filter_set(old, Some(filter), new)
        }
    }

    /// `new` is `old` with the detail pane opened or closed; closing it takes
    /// the focus from it.
    pub open spec fn details_toggled(old: App, new: App) -> bool {
        new == (App {
            show_details: !old.show_details,
            detail_focused: if old.show_details { false } else { old.detail_focused },
            ..old
        })
    }

    /// `new` is `old` after the key `key` was pressed: the key bindings of
    /// the interface.
    pub open spec fn key_handled(old: App, key: Key, new: App) -> bool {
        let selecting = old.state is SelectingWorker;
        let scrolling = old.show_details && old.detail_focused;
        match key {
            Key::Char('q') => new == (App { should_quit: true, ..old }),
            Key::Char('2') => Self::filter_toggled(old, StatusFilter::Success, new),
            Key::Char('4') => Self::filter_toggled(old, StatusFilter::ClientErr, new),
            Key::Char('5') => Self::filter_toggled(old, StatusFilter::ServerErr, new),
            Key::Char('0') => Self::filter_toggled(old, StatusFilter::Other, new),
            Key::Char('a') => Self::filter_set(old, None, new),
            Key::Enter => if selecting {
                Self::chose_worker(old, new)
            } else {
                Self::details_toggled(old, new)
            },
            Key::Up | Key::Char('k') => if selecting {
                Self::moved_previous(old, new)
            } else if scrolling {
                new == (App { detail_scroll: old.detail_scroll.saturating_sub(1), ..old })
            } else {
                Self::moved_previous_log(old, new)
            },
            Key::Down | Key::Char('j') => if selecting {
                Self::moved_next(old, new)
            } else if scrolling {
                new == (App { detail_scroll: old.detail_scroll.saturating_add(1), ..old })
            } else {
                Self::moved_next_log(old, new)
            },
            Key::Left | Key::Char('h') => if old.show_details {
                new == (App { detail_focused: false, ..old })
            } else {
                new == old
            },
            Key::Right | Key::Char('l') => if old.show_details {
                new == (App { detail_focused: true, ..old })
            } else {
                new == old
            },
            Key::PageUp | Key::Char('u') => if scrolling {
                new == (App { detail_scroll: old.detail_scroll.saturating_sub(10), ..old })
            } else {
                new == old
            },
            Key::PageDown | Key::Char('d') => if scrolling {
                new == (App { detail_scroll: old.detail_scroll.saturating_add(10), ..old })
            } else {
                new == old
            },
            Key::Tab => if old.show_details {
                new == (App { detail_focused: !old.detail_focused, ..old })
            } else {
                new == old
            },
            Key::Home => if scrolling {
                new == (App { detail_scroll: 0, ..old })
            } else {
                new == old
            },
            Key::End => if scrolling {
                new == (App { detail_scroll: end_scroll(old), ..old })
            } else {
                new == old
            },
            _ => new == old,
        }
    }

    /// Builds the interface on the Worker selection screen with the first
    /// Worker highlighted.
    pub fn new(workers: Vec<String>) -> (r: App)
        ensures
            r.logs@.len() == 0,
            r.filtered_logs@.len() == 0,
            r.list_state@ == Some(0usize),
            r.log_state@ is None,
            !r.should_quit,
            r.state == AppState::SelectingWorker(workers),
            r.selected_worker is None,
            !r.show_details,
            r.detail_scroll == 0,
            !r.detail_focused,
            r.status_counts == (StatusCounts { success: 0, client_err: 0, server_err: 0, other: 0 }),
            r.active_filter is None,
            r.offered_workers@.len() == 0,
            r.filter_consistent(),
            r.focus_consistent(),
    {
        let mut list_state = ListState::default();
        list_state.select(Some(0));
        App {
            logs: Vec::new(),
            filtered_logs: Vec::new(),
            list_state,
            log_state: ListState::default(),
            should_quit: false,
            state: AppState::SelectingWorker(workers),
            selected_worker: None,
            show_details: false,
            detail_scroll: 0,
            detail_focused: false,
            status_counts: StatusCounts::default(),
            active_filter: None,
            offered_workers: Vec::new(),
        }
    }

    /// The Workers offered for choice.
    pub fn get_workers(&self) -> (r: &[String])
        ensures
            r@ == self.state.spec_workers(),
    {
        self.state.get_workers()
    }

    /// Moves the Worker highlight down, wrapping around.
    pub fn next(&mut self)
        ensures
            Self::moved_next(*old(self), *final(self)),
    {
        let n = self.get_workers().len();
        if n == 0 {
            return;
        }
        let i = match self.list_state.selected() {
            Some(i) => {
                if i >= n - 1 {
                    0
                } else {
                    i + 1
                }
            },
            None => 0,
        };
        self.list_state.select(Some(i));
    }

    /// Moves the Worker highlight up, wrapping around.
    pub fn previous(&mut self)
        ensures
            Self::moved_previous(*old(self), *final(self)),
    {
        let n = self.get_workers().len();
        if n == 0 {
            return;
        }
        let i = match self.list_state.selected() {
            Some(i) => {
                if i == 0 {
                    n - 1
                } else {
                    i - 1
                }
            },
            None => 0,
        };
        self.list_state.select(Some(i));
    }

    /// Re-applies the active filter to the events.
    pub fn apply_filter(&mut self)
        ensures
            Self::refiltered(*old(self), *final(self)),
            final(self).filter_consistent(),
    {
        self.filtered_logs.clear();
        let filter = self.active_filter;
        let n = self.logs.len();
        let mut index: usize = 0;
        while index < n
            invariant
                n == self.logs@.len(),
                index <= n,
                filter == self.active_filter,
                self.filtered_logs@ == matching_indices(self.logs@.take(index as int), filter),
                *self == (App { filtered_logs: self.filtered_logs, ..*old(self) }),
            decreases n - index,
        {
            let status = match &self.logs[index].event {
                Some(event) => event_response_status(event),
                None => None,
            };
            let ghost taken = self.logs@.take(index + 1);
            assert(taken.drop_last() =~= self.logs@.take(index as int));
            assert(taken.last() == self.logs@[index as int]);
            if status_admitted(filter, status) {
                self.filtered_logs.push(index);
            }
            index = index + 1;
        }
        assert(self.logs@.take(n as int) =~= self.logs@);
        if let Some(selected) = self.log_state.selected() {
            if selected >= self.filtered_logs.len() {
                self.log_state.select(Some(0));
            }
        }
    }

    /// Chooses the highlighted Worker and starts connecting to it.
    pub fn select_worker(&mut self)
        ensures
            Self::chose_worker(*old(self), *final(self)),
    {
        let chosen = match &self.state {
            AppState::SelectingWorker(workers) => match self.list_state.selected() {
                Some(selected) => {
                    if selected < workers.len() {
                        Some(workers[selected].clone())
                    } else {
                        None
                    }
                },
                None => None,
            },
            _ => None,
        };
        if let Some(worker) = chosen {
            self.selected_worker = Some(worker);
            let mut previous = AppState::Connecting;
            std::mem::swap(&mut previous, &mut self.state);
            if let AppState::SelectingWorker(list) = previous {
                self.offered_workers = list;
            }
            self.active_filter = Some(StatusFilter::All);
            self.apply_filter();
        }
    }

    /// Moves the log highlight down, wrapping around, and scrolls the detail
    /// pane to its top.
    pub fn next_log(&mut self)
        ensures
            Self::moved_next_log(*old(self), *final(self)),
    {
        let n = self.filtered_logs.len();
        if n == 0 {
            return;
        }
        let i = match self.log_state.selected() {
            Some(i) => {
                if i >= n - 1 {
                    0
                } else {
                    i + 1
                }
            },
            None => 0,
        };
        self.log_state.select(Some(i));
        self.detail_scroll = 0;
    }

    /// Moves the log highlight up, wrapping around, and scrolls the detail
    /// pane to its top.
    pub fn previous_log(&mut self)
        ensures
            Self::moved_previous_log(*old(self), *final(self)),
    {
        let n = self.filtered_logs.len();
        if n == 0 {
            return;
        }
        let i = match self.log_state.selected() {
            Some(i) => {
                if i == 0 {
                    n - 1
                } else {
                    i - 1
                }
            },
            None => 0,
        };
        self.log_state.select(Some(i));
        self.detail_scroll = 0;
    }

    /// Opens or closes the detail pane.
    pub fn toggle_details(&mut self)
        ensures
            Self::details_toggled(*old(self), *final(self)),
    {
        self.show_details = !self.show_details;
        if !self.show_details {
            self.detail_focused = false;
        }
    }

    /// Scrolls the detail pane up one line, stopping at the top.
    pub fn scroll_details_up(&mut self)
        ensures
            *final(self) == (App { detail_scroll: old(self).detail_scroll.saturating_sub(1), ..*old(self) }),
    {
        self.detail_scroll = self.detail_scroll.saturating_sub(1);
    }

    /// Scrolls the detail pane down one line, stopping at the largest offset.
    pub fn scroll_details_down(&mut self)
        ensures
            *final(self) == (App { detail_scroll: old(self).detail_scroll.saturating_add(1), ..*old(self) }),
    {
        self.detail_scroll = self.detail_scroll.saturating_add(1);
    }

    /// Scrolls the detail pane up ten lines, stopping at the top.
    pub fn scroll_details_page_up(&mut self)
        ensures
            *final(self) == (App { detail_scroll: old(self).detail_scroll.saturating_sub(10), ..*old(self) }),
    {
        self.detail_scroll = self.detail_scroll.saturating_sub(10);
    }

    /// Scrolls the detail pane down ten lines, stopping at the largest offset.
    pub fn scroll_details_page_down(&mut self)
        ensures
            *final(self) == (App { detail_scroll: old(self).detail_scroll.saturating_add(10), ..*old(self) }),
    {
        self.detail_scroll = self.detail_scroll.saturating_add(10);
    }

    /// Gives the focus to the log list.
    pub fn focus_logs(&mut self)
        ensures
            *final(self) == (App { detail_focused: false, ..*old(self) }),
    {
        self.detail_focused = false;
    }

    /// Gives the focus to the detail pane, where it is open.
    pub fn focus_details(&mut self)
        ensures
            *final(self) == (App { detail_focused: old(self).show_details || old(self).detail_focused, ..*old(self) }),
    {
        if self.show_details {
            self.detail_focused = true;
        }
    }

    /// Counts the status of one more event.
    pub fn update_status_counts(&mut self, log: &TailEventMessage)
        requires
            can_count(old(self).status_counts, log_status(*log)),
        ensures
            *final(self) == (App { status_counts: counted(old(self).status_counts, log_status(*log)), ..*old(self) }),
    {
        let status = match &log.event {
            Some(event) => event_response_status(event),
            None => None,
        };
        if let Some(status) = status {
            if 200 <= status && status <= 299 {
                self.status_counts.success = self.status_counts.success + 1;
            } else if 400 <= status && status <= 499 {
                self.status_counts.client_err = self.status_counts.client_err + 1;
            } else if 500 <= status && status <= 599 {
                self.status_counts.server_err = self.status_counts.server_err + 1;
            } else {
                self.status_counts.other = self.status_counts.other + 1;
            }
        }
    }

    /// Sets the status filter and re-applies it.
    pub fn set_filter(&mut self, filter: Option<StatusFilter>)
        ensures
            Self::filter_set(*old(self), filter, *final(self)),
            final(self).filter_consistent(),
    {
        self.active_filter = filter;
        self.apply_filter();
    }

    /// Switches a status filter off where it is the active one, on otherwise.
    pub fn toggle_filter(&mut self, filter: StatusFilter)
        ensures
            Self::filter_toggled(*old(self), filter, *final(self)),
            final(self).filter_consistent(),
    {
        if self.active_filter == Some(filter) {
            self.set_filter(None);
        } else {
            self.set_filter(Some(filter));
        }
    }
}

impl App {
    /// Acts on one key press.
    pub fn handle_key(&mut self, key: Key)
        ensures
            Self::key_handled(*old(self), key, *final(self)),
            old(self).focus_consistent() ==> final(self).focus_consistent(),
            old(self).filter_consistent() ==> final(self).filter_consistent(),
            final(self).logs == old(self).logs,
    {
        let selecting = match self.state {
            AppState::SelectingWorker(_) => true,
            _ => false,
        };
        match key {
            Key::Char('q') => {
                self.should_quit = true;
            },
            Key::Char('2') => {
                self.toggle_filter(StatusFilter::Success);
            },
            Key::Char('4') => {
                self.toggle_filter(StatusFilter::ClientErr);
            },
            Key::Char('5') => {
                self.toggle_filter(StatusFilter::ServerErr);
            },
            Key::Char('0') => {
                self.toggle_filter(StatusFilter::Other);
            },
            Key::Char('a') => {
                self.set_filter(None);
            },
            Key::Enter => {
                if selecting {
                    self.select_worker();
                } else {
                    self.toggle_details();
                }
            },
            Key::Up | Key::Char('k') => {
                if selecting {
                    self.previous();
                } else if self.show_details && self.detail_focused {
                    self.scroll_details_up();
                } else {
                    self.previous_log();
                }
            },
            Key::Down | Key::Char('j') => {
                if selecting {
                    self.next();
                } else if self.show_details && self.detail_focused {
                    self.scroll_details_down();
                } else {
                    self.next_log();
                }
            },
            Key::Left | Key::Char('h') => {
                if self.show_details {
                    self.focus_logs();
                }
            },
            Key::Right | Key::Char('l') => {
                if self.show_details {
                    self.focus_details();
                }
            },
            Key::PageUp | Key::Char('u') => {
                if self.show_details && self.detail_focused {
                    self.scroll_details_page_up();
                }
            },
            Key::PageDown | Key::Char('d') => {
                if self.show_details && self.detail_focused {
                    self.scroll_details_page_down();
                }
            },
            Key::Tab => {
                if self.show_details {
                    if self.detail_focused {
                        self.focus_logs();
                    } else {
                        self.focus_details();
                    }
                }
            },
            Key::Home => {
                if self.show_details && self.detail_focused {
                    self.detail_scroll = 0;
                }
            },
            Key::End => {
                if self.show_details && self.detail_focused {
                    self.detail_scroll = detail_end_scroll(self);
                }
            },
            _ => {},
        }
    }

    /// The Worker to connect to: the chosen one while the interface is
    /// connecting, none otherwise.
    pub fn pending_connection(&self) -> (r: Option<String>)
        ensures
            r == (if self.state is Connecting { self.selected_worker } else { None }),
    {
        match self.state {
            AppState::Connecting => match &self.selected_worker {
                Some(worker) => Some(worker.clone()),
                None => None,
            },
            _ => None,
        }
    }

    /// Records how a connection attempt ended: on success the interface shows
    /// the stream; on failure it returns to the selection screen, offering
    /// again the Workers that were offered before connecting.
    pub fn connection_finished(&mut self, connected: bool)
        ensures
            connected ==> *final(self) == (App { state: AppState::Viewing, ..*old(self) }),
            !connected ==> {
                &&& *final(self) == (App {
                    state: AppState::SelectingWorker(old(self).offered_workers),
                    offered_workers: final(self).offered_workers,
                    ..*old(self)
                })
                &&& final(self).offered_workers@.len() == 0
            },
    {
        if connected {
            self.state = AppState::Viewing;
        } else {
            let mut workers: Vec<String> = Vec::new();
            std::mem::swap(&mut workers, &mut self.offered_workers);
            self.state = AppState::SelectingWorker(workers);
        }
    }

    /// Takes in one more event: counts its status, appends it, drops the
    /// oldest events beyond `max_log_entries`, and re-applies the filter.
    pub fn receive_log(&mut self, log: TailEventMessage, max_log_entries: usize)
        requires
            can_count(old(self).status_counts, log_status(log)),
        ensures
            final(self).logs@ == kept_newest(old(self).logs@.push(log), max_log_entries as nat),
            final(self).logs@.len() <= max_log_entries,
            final(self).status_counts == counted(old(self).status_counts, log_status(log)),
            final(self).filter_consistent(),
            final(self).log_state@ == clamp_selection(old(self).log_state@, final(self).filtered_logs@.len()),
            *final(self) == (App {
                logs: final(self).logs,
                filtered_logs: final(self).filtered_logs,
                log_state: final(self).log_state,
                status_counts: final(self).status_counts,
                ..*old(self)
            }),
            old(self).status_counts == tally(old(self).logs@) && old(self).logs@.len() < max_log_entries
                ==> final(self).status_counts == tally(final(self).logs@),
    {
        self.update_status_counts(&log);
        self.logs.push(log);
        let ghost all = self.logs@;
        proof {
            assert(all.drop_last() =~= old(self).logs@);
            assert(all.skip(0) =~= all);
        }
        while self.logs.len() > max_log_entries
            invariant
                self.logs@.len() <= all.len(),
                all.len() > max_log_entries ==> self.logs@.len() >= max_log_entries,
                all.len() <= max_log_entries ==> self.logs@.len() == all.len(),
                self.logs@ == all.skip(all.len() - self.logs@.len()),
                self.status_counts == counted(old(self).status_counts, log_status(log)),
                *self == (App {
                    logs: self.logs,
                    status_counts: self.status_counts,
                    ..*old(self)
                }),
            decreases self.logs@.len(),
        {
            let ghost before = self.logs@;
            self.logs.remove(0);
            assert(self.logs@ =~= all.skip(all.len() - self.logs@.len()));
        }
        proof {
            if all.len() > max_log_entries {
                assert(self.logs@ =~= all.skip(all.len() - max_log_entries));
            } else {
                assert(self.logs@ =~= all);
            }
        }
        self.apply_filter();
    }
}

/// Whether counting the status of `log` keeps its counter within a machine
/// word (the test that guards `update_status_counts` and `receive_log`).
pub fn can_count_event(counts: &StatusCounts, log: &TailEventMessage) -> (r: bool)
    ensures
        r == can_count(*counts, log_status(*log)),
{
    let status = match &log.event {
        Some(event) => event_response_status(event),
        None => None,
    };
    match status {
        None => true,
        Some(s) => {
            if 200 <= s && s <= 299 {
                counts.success < usize::MAX
            } else if 400 <= s && s <= 499 {
                counts.client_err < usize::MAX
            } else if 500 <= s && s <= 599 {
                counts.server_err < usize::MAX
            } else {
                counts.other < usize::MAX
            }
        },
    }
}

/// The newest `max` events of `all` (all of them where there are no more).
pub open spec fn kept_newest(all: Seq<TailEventMessage>, max: nat) -> Seq<TailEventMessage> {
    if all.len() > max {
        all.skip(all.len() - max)
    } else {
        all
    }
}

/// The counts of the statuses of a sequence of events, counted one by one.
pub open spec fn tally(logs: Seq<TailEventMessage>) -> StatusCounts
    decreases logs.len(),
{
    if logs.len() == 0 {
        StatusCounts { success: 0, client_err: 0, server_err: 0, other: 0 }
    } else {
        counted(tally(logs.drop_last()), log_status(logs.last()))
    }
}

/// Whether the list shows an event of this status under this filter.
pub fn status_admitted(filter: Option<StatusFilter>, status: Option<u64>) -> (r: bool)
    ensures
        r == filter_admits(filter, status),
{
    match filter {
        Some(StatusFilter::Success) => match status {
            Some(s) => 200 <= s && s < 300,
            None => false,
        },
        Some(StatusFilter::ClientErr) => match status {
            Some(s) => 400 <= s && s < 500,
            None => false,
        },
        Some(StatusFilter::ServerErr) => match status {
            Some(s) => 500 <= s && s < 600,
            None => false,
        },
        Some(StatusFilter::Other) => match status {
            Some(s) => !((200 <= s && s < 300) || (400 <= s && s < 600)),
            None => true,
        },
        Some(StatusFilter::All) | None => true,
    }
}

/// The log list under a filter holds, in increasing order and each once,
/// exactly the positions of the events that the filter admits.
pub proof fn lemma_filtered_list_exact(logs: Seq<TailEventMessage>, filter: Option<StatusFilter>)
    requires
        logs.len() <= usize::MAX,
    ensures
        ({
            let shown = matching_indices(logs, filter);
            &&& forall|k: int| 0 <= k < shown.len() ==> #[trigger] shown[k] < logs.len()
                && filter_admits(filter, log_status(logs[shown[k] as int]))
            &&& forall|j: int, k: int| 0 <= j < k < shown.len() ==> shown[j] < shown[k]
            &&& forall|i: int| 0 <= i < logs.len() && filter_admits(filter, log_status(#[trigger] logs[i]))
                ==> shown.contains(i as usize)
        }),
    decreases logs.len(),
{
    if logs.len() > 0 {
        let earlier = logs.drop_last();
        lemma_filtered_list_exact(earlier, filter);
        let prev = matching_indices(earlier, filter);
        let shown = matching_indices(logs, filter);
        assert forall|i: int| 0 <= i < logs.len() && filter_admits(filter, log_status(#[trigger] logs[i]))
            implies shown.contains(i as usize) by {
            if i == logs.len() - 1 {
                assert(shown[shown.len() - 1] == i as usize);
            } else {
                assert(earlier[i] == logs[i]);
                assert(prev.contains(i as usize));
                let k = choose|k: int| 0 <= k < prev.len() && prev[k] == i as usize;
                assert(shown[k] == prev[k]);
            }
        }
        assert forall|k: int| 0 <= k < shown.len() implies #[trigger] shown[k] < logs.len()
            && filter_admits(filter, log_status(logs[shown[k] as int])) by {
            if k < prev.len() {
                assert(shown[k] == prev[k]);
                assert(earlier[prev[k] as int] == logs[prev[k] as int]);
            } else {
                assert(shown[k] == (logs.len() - 1) as usize);
                assert(logs.last() == logs[logs.len() - 1]);
            }
        }
        assert forall|j: int, k: int| 0 <= j < k < shown.len() implies shown[j] < shown[k] by {
            assert(shown[j] == prev[j]);
            assert(prev[j] < earlier.len());
            if k < prev.len() {
                assert(shown[k] == prev[k]);
            }
        }
    }
}

/// With no filter, or the filter "all", the log list shows every event in
/// order.
pub proof fn lemma_unfiltered_shows_every_event(logs: Seq<TailEventMessage>, filter: Option<StatusFilter>)
    requires
        filter is None || filter == Some(StatusFilter::All),
        logs.len() <= usize::MAX + 1,
    ensures
        matching_indices(logs, filter) == Seq::new(logs.len(), |i: int| i as usize),
    decreases logs.len(),
{
    if logs.len() > 0 {
        lemma_unfiltered_shows_every_event(logs.drop_last(), filter);
        assert(matching_indices(logs, filter) =~= Seq::new(logs.len(), |i: int| i as usize));
    } else {
        assert(matching_indices(logs, filter) =~= Seq::new(logs.len(), |i: int| i as usize));
    }
}

/// No event passes two of the filters 2xx, 4xx, 5xx and "other".
pub proof fn lemma_status_filters_disjoint(status: Option<u64>, f: StatusFilter, g: StatusFilter)
    requires
        f != g,
        f != StatusFilter::All,
        g != StatusFilter::All,
    ensures
        !(filter_admits(Some(f), status) && filter_admits(Some(g), status)),
{
}

/// Every event passes one of the filters 2xx, 4xx, 5xx and "other".
pub proof fn lemma_status_filters_cover(status: Option<u64>)
    ensures
        filter_admits(Some(StatusFilter::Success), status)
            || filter_admits(Some(StatusFilter::ClientErr), status)
            || filter_admits(Some(StatusFilter::ServerErr), status)
            || filter_admits(Some(StatusFilter::Other), status),
{
}

/// The classes of HTTP status, by number: the 2xx filter admits exactly the
/// statuses from 200 to 299, the 4xx filter those from 400 to 499, the 5xx
/// filter those from 500 to 599, and "other" every other status and events
/// without one; "all" and no filter admit every event. An event is counted
/// under the class of its status (where that counter has room), and an event
/// without a status is not counted.
pub proof fn lemma_status_classes(s: u64, c: StatusCounts, status: Option<u64>)
    ensures
        filter_admits(Some(StatusFilter::Success), Some(s)) <==> 200 <= s < 300,
        filter_admits(Some(StatusFilter::ClientErr), Some(s)) <==> 400 <= s < 500,
        filter_admits(Some(StatusFilter::ServerErr), Some(s)) <==> 500 <= s < 600,
        filter_admits(Some(StatusFilter::Other), Some(s)) <==> !(200 <= s < 300 || 400 <= s < 600),
        filter_admits(Some(StatusFilter::Other), None),
        !filter_admits(Some(StatusFilter::Success), None),
        !filter_admits(Some(StatusFilter::ClientErr), None),
        !filter_admits(Some(StatusFilter::ServerErr), None),
        filter_admits(Some(StatusFilter::All), status),
        filter_admits(None, status),
        200 <= s < 300 && c.success < usize::MAX
            ==> counted(c, Some(s)) == (StatusCounts { success: (c.success + 1) as usize, ..c }),
        400 <= s < 500 && c.client_err < usize::MAX
            ==> counted(c, Some(s)) == (StatusCounts { client_err: (c.client_err + 1) as usize, ..c }),
        500 <= s < 600 && c.server_err < usize::MAX
            ==> counted(c, Some(s)) == (StatusCounts { server_err: (c.server_err + 1) as usize, ..c }),
        !(200 <= s < 300 || 400 <= s < 600) && c.other < usize::MAX
            ==> counted(c, Some(s)) == (StatusCounts { other: (c.other + 1) as usize, ..c }),
        counted(c, None) == c,
{
}

/// The number of events without an HTTP status.
pub open spec fn unstatused_count(logs: Seq<TailEventMessage>) -> nat
    decreases logs.len(),
{
    if logs.len() == 0 {
        0
    } else {
        unstatused_count(logs.drop_last()) + if log_status(logs.last()) is None { 1nat } else { 0nat }
    }
}

proof fn lemma_matching_no_longer(logs: Seq<TailEventMessage>, filter: Option<StatusFilter>)
    ensures
        matching_indices(logs, filter).len() <= logs.len(),
    decreases logs.len(),
{
    if logs.len() > 0 {
        lemma_matching_no_longer(logs.drop_last(), filter);
    }
}

/// The status chart and the filtered lists agree: over the same events, the
/// 2xx, 4xx and 5xx counters are the lengths of the lists under those
/// filters, and the "other" counter together with the events that have no
/// status is the length of the list under "other".
pub proof fn lemma_counts_match_filtered_lists(logs: Seq<TailEventMessage>)
    requires
        logs.len() <= usize::MAX,
    ensures
        tally(logs).success == matching_indices(logs, Some(StatusFilter::Success)).len(),
        tally(logs).client_err == matching_indices(logs, Some(StatusFilter::ClientErr)).len(),
        tally(logs).server_err == matching_indices(logs, Some(StatusFilter::ServerErr)).len(),
        tally(logs).other + unstatused_count(logs) == matching_indices(logs, Some(StatusFilter::Other)).len(),
    decreases logs.len(),
{
    if logs.len() > 0 {
        let prefix = logs.drop_last();
        lemma_counts_match_filtered_lists(prefix);
        lemma_matching_no_longer(prefix, Some(StatusFilter::Success));
        lemma_matching_no_longer(prefix, Some(StatusFilter::ClientErr));
        lemma_matching_no_longer(prefix, Some(StatusFilter::ServerErr));
        lemma_matching_no_longer(prefix, Some(StatusFilter::Other));
    }
}

/// Moving down and then up (or up and then down) in a list of `n` rows
/// returns to the row one started from, and each move stays inside the list.
pub proof fn lemma_moves_undo_each_other(i: usize, n: nat)
    requires
        i < n,
        n <= usize::MAX,
    ensures
        next_index(Some(i), n) < n,
        previous_index(Some(i), n) < n,
        previous_index(Some(next_index(Some(i), n)), n) == i,
        next_index(Some(previous_index(Some(i), n)), n) == i,
        next_index(Some(i), n) == (i + 1) % (n as int),
        previous_index(Some(i), n) == (i + n - 1) % (n as int),
        next_index(None, n) == 0,
        previous_index(None, n) == 0,
{
    if i + 1 < n {
        assert((i + 1) % (n as int) == i + 1) by (nonlinear_arith)
            requires 0 <= i + 1 < n;
    } else {
        assert((i + 1) % (n as int) == 0) by (nonlinear_arith)
            requires i + 1 == n, n > 0;
    }
    if i > 0 {
        assert((i + n - 1) % (n as int) == i - 1) by (nonlinear_arith)
            requires 0 < i < n;
    } else {
        assert((i + n - 1) % (n as int) == n - 1) by (nonlinear_arith)
            requires i == 0, n > 0;
    }
}

/// Switching the same status filter twice, starting with that filter or no
/// filter active, gives back the active filter and the list shown.
pub proof fn lemma_toggle_filter_twice(a: App, b: App, c: App, f: StatusFilter)
    requires
        App::filter_toggled(a, f, b),
        App::filter_toggled(b, f, c),
        a.active_filter is None || a.active_filter == Some(f),
        a.filter_consistent(),
    ensures
        c.active_filter == a.active_filter,
        c.filtered_logs@ == a.filtered_logs@,
        c.logs == a.logs,
{
}

/// Re-applying the filter a second time changes nothing more: the list and
/// the log highlight stay as the first application left them.
pub proof fn lemma_refilter_idempotent(a: App, b: App, c: App)
    requires
        App::refiltered(a, b),
        App::refiltered(b, c),
    ensures
        c.filtered_logs@ == b.filtered_logs@,
        c.log_state@ == b.log_state@,
        c == (App { filtered_logs: c.filtered_logs, log_state: c.log_state, ..b }),
{
}

/// Scrolling the detail pane down and then up, by a line or by a page,
/// returns to where it was, short of the largest offset.
pub proof fn lemma_scroll_round_trip(a: App, b: App, c: App, step: u16)
    requires
        step == 1 || step == 10,
        a.detail_scroll + step <= u16::MAX,
        b == (App { detail_scroll: a.detail_scroll.saturating_add(step), ..a }),
        c == (App { detail_scroll: b.detail_scroll.saturating_sub(step), ..b }),
    ensures
        c == a,
{
}

/// Opening and closing the detail pane (or the reverse) gives back whether
/// it is open; the focus is never left on a closed pane.
pub proof fn lemma_details_toggle_twice(a: App, b: App, c: App)
    requires
        App::details_toggled(a, b),
        App::details_toggled(b, c),
        a.focus_consistent(),
    ensures
        c.show_details == a.show_details,
        b.focus_consistent(),
        c.focus_consistent(),
        c.detail_focused ==> a.detail_focused,
{
}

/// The keys that scroll the open, focused detail pane: up and `k` one line
/// up, down and `j` one line down (outside the Worker selection screen),
/// page up and `u` ten lines up, page down and `d` ten lines down, each
/// stopping at the top and at the largest offset, and Home back to the top.
/// Nothing else changes. Without the focus on an open detail pane, page up,
/// `u`, page down, `d` and Home change nothing.
pub proof fn lemma_scroll_keys(old: App, key: Key, new: App)
    requires
        App::key_handled(old, key, new),
    ensures
        old.show_details && old.detail_focused ==> {
            &&& (key == Key::PageUp || key == Key::Char('u')) ==> new == (App {
                detail_scroll: if old.detail_scroll >= 10 { (old.detail_scroll - 10) as u16 } else { 0u16 },
                ..old
            })
            &&& (key == Key::PageDown || key == Key::Char('d')) ==> new == (App {
                detail_scroll: if old.detail_scroll <= u16::MAX - 10 { (old.detail_scroll + 10) as u16 } else { u16::MAX },
                ..old
            })
            &&& key == Key::Home ==> new == (App { detail_scroll: 0, ..old })
            &&& !(old.state is SelectingWorker) && (key == Key::Up || key == Key::Char('k')) ==> new == (App {
                detail_scroll: if old.detail_scroll >= 1 { (old.detail_scroll - 1) as u16 } else { 0u16 },
                ..old
            })
            &&& !(old.state is SelectingWorker) && (key == Key::Down || key == Key::Char('j')) ==> new == (App {
                detail_scroll: if old.detail_scroll < u16::MAX { (old.detail_scroll + 1) as u16 } else { u16::MAX },
                ..old
            })
        },
        !(old.show_details && old.detail_focused) && (key == Key::PageUp || key == Key::Char('u')
            || key == Key::PageDown || key == Key::Char('d') || key == Key::Home) ==> new == old,
{
}

/// The keys that change the status filter: `2`, `4`, `5` and `0` switch the
/// 2xx, 4xx, 5xx and "other" filters (off where that filter is the active
/// one, on otherwise), and `a` shows every event; the list shown is then
/// recomputed from the events under the new filter. `q` asks the interface
/// to close and changes nothing else.
pub proof fn lemma_filter_keys(old: App, key: Key, new: App)
    requires
        App::key_handled(old, key, new),
    ensures
        key == Key::Char('2') ==> new.active_filter == (if old.active_filter == Some(StatusFilter::Success) {
            None } else { Some(StatusFilter::Success) }),
        key == Key::Char('4') ==> new.active_filter == (if old.active_filter == Some(StatusFilter::ClientErr) {
            None } else { Some(StatusFilter::ClientErr) }),
        key == Key::Char('5') ==> new.active_filter == (if old.active_filter == Some(StatusFilter::ServerErr) {
            None } else { Some(StatusFilter::ServerErr) }),
        key == Key::Char('0') ==> new.active_filter == (if old.active_filter == Some(StatusFilter::Other) {
            None } else { Some(StatusFilter::Other) }),
        key == Key::Char('a') ==> new.active_filter is None,
        (key == Key::Char('2') || key == Key::Char('4') || key == Key::Char('5') || key == Key::Char('0')
            || key == Key::Char('a')) ==> {
            &&& new.filtered_logs@ == matching_indices(old.logs@, new.active_filter)
            &&& new.logs == old.logs
            &&& new.status_counts == old.status_counts
            &&& new.state == old.state
            &&& new.detail_scroll == old.detail_scroll
        },
        key == Key::Char('q') ==> new == (App { should_quit: true, ..old }),
{
}

/// The events kept after one more arrived are the newest ones, in the order
/// in which they came: at most `max` of them, all of them where there are no
/// more, and, where any is kept, the one that just came is the last.
pub proof fn lemma_kept_newest(all: Seq<TailEventMessage>, max: nat)
    ensures
        kept_newest(all, max).len() == if all.len() > max { max } else { all.len() },
        forall|i: int| 0 <= i < kept_newest(all, max).len()
            ==> #[trigger] kept_newest(all, max)[i] == all[all.len() - kept_newest(all, max).len() + i],
        max > 0 && all.len() > 0 ==> kept_newest(all, max).last() == all.last(),
{
}

/// The keys that move the focus and open the detail pane: with the pane
/// open, Tab moves the focus between the log list and the pane, left and
/// `h` give it to the list, right and `l` to the pane; with the pane closed
/// these keys change nothing. Enter outside the Worker selection screen
/// opens the pane, or closes it and takes the focus from it. Nothing else
/// changes.
pub proof fn lemma_focus_keys(old: App, key: Key, new: App)
    requires
        App::key_handled(old, key, new),
    ensures
        old.show_details && key == Key::Tab ==> new == (App { detail_focused: !old.detail_focused, ..old }),
        old.show_details && (key == Key::Left || key == Key::Char('h'))
            ==> new == (App { detail_focused: false, ..old }),
        old.show_details && (key == Key::Right || key == Key::Char('l'))
            ==> new == (App { detail_focused: true, ..old }),
        !old.show_details && (key == Key::Tab || key == Key::Left || key == Key::Char('h')
            || key == Key::Right || key == Key::Char('l')) ==> new == old,
        !(old.state is SelectingWorker) && key == Key::Enter && !old.show_details
            ==> new == (App { show_details: true, ..old }),
        !(old.state is SelectingWorker) && key == Key::Enter && old.show_details
            ==> new == (App { show_details: false, detail_focused: false, ..old }),
{
}

/// Enter on the Worker selection screen chooses the highlighted Worker: it
/// becomes the chosen one, the interface starts connecting and keeps the
/// Workers offered, and the filter "all" shows every event received. Without
/// a highlighted Worker, Enter changes nothing there.
pub proof fn lemma_enter_chooses_worker(old: App, new: App, workers: Vec<String>)
    requires
        App::key_handled(old, Key::Enter, new),
        old.state == AppState::SelectingWorker(workers),
        old.logs@.len() <= usize::MAX + 1,
    ensures
        match old.list_state@ {
            Some(s) if s < workers@.len() => {
                &&& new.selected_worker == Some(workers@[s as int])
                &&& new.state == AppState::Connecting
                &&& new.offered_workers == workers
                &&& new.active_filter == Some(StatusFilter::All)
                &&& new.filtered_logs@ == Seq::new(old.logs@.len(), |i: int| i as usize)
                &&& new.logs == old.logs
                &&& new.status_counts == old.status_counts
            },
            _ => new == old,
        },
{
    lemma_unfiltered_shows_every_event(old.logs@, Some(StatusFilter::All));
}

/// The counts of a new interface agree with its (empty) event list.
pub proof fn lemma_fresh_counts_agree()
    ensures
        tally(Seq::<TailEventMessage>::empty()) == (StatusCounts { success: 0, client_err: 0, server_err: 0, other: 0 }),
{
}

} // verus!
