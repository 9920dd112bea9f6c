//! The state of the interactive screen: which screen and pane are shown, what
//! is selected, the command line, the status line and the focus timer.
use vstd::prelude::*;

use crate::clock::now_stamp;
use crate::models::{active_order, Block, BlockTiming, DayModel, DayState, Task, Timestamp, refs_are};
use crate::order::{is_stable_order, lemma_count_all_chosen, lemma_stable_order_exists, stable_order, stable_order_of};
use crate::store::{looks_like_time, spec_looks_like_time, time_minutes, spec_time_minutes};
use crate::text::{chars_of, decimal, decimal_chars, extend_chars, extend_str, owned, same_ignoring_ascii_case, same_ignoring_case, string_of};

verus! {

/// The three screens of the day's flow.
#[derive(Debug, Clone, Copy, PartialEq, Eq, Structural)]
pub enum CurrentScreen {
    Plan,
    Execute,
    Review,
}

/// The pane that the arrow keys move through.
#[derive(Debug, Clone, Copy, PartialEq, Eq, Structural)]
pub enum ActivePane {
    Timeline,
    Tasks,
    CarryForward,
}

/// The selected row of a list, if any.
#[derive(Debug, Clone, Copy, PartialEq, Eq, Structural)]
pub struct ListSelection {
    pub selected: Option<usize>,
}

impl ListSelection {
    /// Nothing selected.
    pub fn none() -> (s: Self)
        ensures
            s.selected is None,
    {
        ListSelection { selected: None }
    }

    /// The selected row.
    pub fn selected(&self) -> (r: Option<usize>)
        ensures
            r == self.selected,
    {
        self.selected
    }

    /// Selects a row, or nothing.
    pub fn select(&mut self, index: Option<usize>)
        ensures
            final(self).selected == index,
    {
        self.selected = index;
    }
}

/// The whole state of the interactive screen.
#[derive(Debug)]
pub struct AppState {
    pub current_screen: CurrentScreen,
    pub day: DayState,
    pub task_state: ListSelection,
    pub block_state: ListSelection,
    pub command_mode: bool,
    pub command_buffer: String,
    pub show_help: bool,
    pub status_message: String,
    pub active_pane: ActivePane,
    /// The length of the last focus timer that was started, in minutes.
    pub focus_minutes: u32,
    /// When that timer was started.
    pub focus_started_at: Option<Timestamp>,
}

/// The mathematical value of an `AppState`, the timer's start time aside.
#[verifier::ext_equal]
pub struct AppView {
    pub screen: CurrentScreen,
    pub pane: ActivePane,
    pub command_mode: bool,
    pub buffer: Seq<char>,
    pub show_help: bool,
    pub status: Seq<char>,
    pub task_sel: Option<usize>,
    pub block_sel: Option<usize>,
    pub focus_minutes: u32,
    pub day: DayModel,
}

impl View for AppState {
    type V = AppView;

    open spec fn view(&self) -> AppView {
        AppView {
            screen: self.current_screen,
            pane: self.active_pane,
            command_mode: self.command_mode,
            buffer: self.command_buffer@,
            show_help: self.show_help,
            status: self.status_message@,
            task_sel: self.task_state.selected,
            block_sel: self.block_state.selected,
            focus_minutes: self.focus_minutes,
            day: self.day@,
        }
    }
}

// ---------------------------------------------------------------------------
// Timeline order
// ---------------------------------------------------------------------------

/// The group of a block on the timeline: `now`, then `next`, then the blocks
/// at a clock time, then `later` and any other label (labels compared up to
/// ASCII case).
pub open spec fn timing_rank(t: BlockTiming) -> u64 {
    match t {
        BlockTiming::Exact { .. } => 2,
        BlockTiming::Loose { label } => if same_ignoring_ascii_case(label@, "now"@) {
            0
        } else if same_ignoring_ascii_case(label@, "next"@) {
            1
        } else {
            3
        },
    }
}

/// The place of a block within its group: the minute of the day of its start
/// time; a start that is not a time sorts after every time.
pub open spec fn timing_minute(t: BlockTiming) -> i128 {
    match t {
        BlockTiming::Exact { start, .. } => if spec_looks_like_time(start@) {
            spec_time_minutes(start@) as i128
        } else {
            10000
        },
        BlockTiming::Loose { .. } => 0,
    }
}

/// The timeline keys of the blocks.
pub open spec fn block_keys(blocks: Seq<Block>) -> Seq<(u64, i128)> {
    Seq::new(blocks.len(), |i: int| (timing_rank(blocks[i].timing), timing_minute(blocks[i].timing)))
}

/// Every position is chosen.
pub open spec fn all_chosen(n: nat) -> Seq<bool> {
    Seq::new(n, |i: int| true)
}

/// The positions of the blocks in timeline order; blocks with equal keys keep
/// the order in which they were added.
pub open spec fn timeline_order(blocks: Seq<Block>) -> Seq<usize> {
    stable_order_of(block_keys(blocks), all_chosen(blocks.len()))
}

/// The timeline order lists every block once: it is a stable order of all
/// positions, and as long as the list of blocks.
pub proof fn lemma_timeline_len(blocks: Seq<Block>)
    requires
        blocks.len() <= usize::MAX,
    ensures
        is_stable_order(block_keys(blocks), all_chosen(blocks.len()), timeline_order(blocks)),
        timeline_order(blocks).len() == blocks.len(),
{
    let chosen = all_chosen(blocks.len());
    lemma_stable_order_exists(block_keys(blocks), chosen);
    lemma_count_all_chosen(chosen);
}

/// The timeline key of one block.
fn timing_key(t: &BlockTiming) -> (k: (u64, i128))
    ensures
        k == (timing_rank(*t), timing_minute(*t)),
{
    match t {
        BlockTiming::Exact { start, .. } => {
            let cs = chars_of(start.as_str());
            if looks_like_time(start.as_str()) {
                proof { crate::store::lemma_time_minutes_small(cs@); }
                (2, time_minutes(&cs) as i128)
            } else {
                (2, 10000)
            }
        },
        BlockTiming::Loose { label } => {
            let cs = chars_of(label.as_str());
            if same_ignoring_case(&cs, "now") {
                (0, 0)
            } else if same_ignoring_case(&cs, "next") {
                (1, 0)
            } else {
                (3, 0)
            }
        },
    }
}

// ---------------------------------------------------------------------------
// Selection moves
// ---------------------------------------------------------------------------

/// The selection after moving down a list of `len` rows.
pub open spec fn next_selection(sel: Option<usize>, len: nat) -> Option<usize> {
    if len == 0 {
        None
    } else {
        match sel {
            Some(i) => if i >= len - 1 { Some(i) } else { Some((i + 1) as usize) },
            None => Some(0),
        }
    }
}

/// The selection after moving up a list of `len` rows.
pub open spec fn prev_selection(sel: Option<usize>, len: nat) -> Option<usize> {
    if len == 0 {
        None
    } else {
        match sel {
            Some(i) => if i == 0 { Some(0) } else { Some((i - 1) as usize) },
            None => Some(0),
        }
    }
}

/// The selection brought within a list of `len` rows.
pub open spec fn clamped_selection(sel: Option<usize>, len: nat) -> Option<usize> {
    if len == 0 {
        None
    } else {
        let i = match sel {
            Some(i) => i as int,
            None => 0,
        };
        Some((if i < len - 1 { i } else { len - 1 }) as usize)
    }
}

/// Brings the selection within a list of `len` rows.
pub fn clamp_selection(state: &mut ListSelection, len: usize)
    ensures
        final(state).selected == clamped_selection(old(state).selected, len as nat),
{
    if len == 0 {
        state.select(None);
        return;
    }
    let selected = match state.selected() {
        Some(i) => i,
        None => 0,
    };
    state.select(Some(if selected < len - 1 { selected } else { len - 1 }));
}

/// Moves the selection one row down, staying on the last row.
pub fn select_next(state: &mut ListSelection, len: usize)
    ensures
        final(state).selected == next_selection(old(state).selected, len as nat),
{
    if len == 0 {
        state.select(None);
        return;
    }
    let i = match state.selected() {
        Some(i) => if i >= len - 1 { i } else { i + 1 },
        None => 0,
    };
    state.select(Some(i));
}

/// Moves the selection one row up, staying on the first row.
pub fn select_prev(state: &mut ListSelection, len: usize)
    ensures
        final(state).selected == prev_selection(old(state).selected, len as nat),
{
    if len == 0 {
        state.select(None);
        return;
    }
    let i = match state.selected() {
        Some(i) => if i == 0 { i } else { i - 1 },
        None => 0,
    };
    state.select(Some(i));
}

// ---------------------------------------------------------------------------
// The screen's operations, stated on its value
// ---------------------------------------------------------------------------

/// The number of rows of the task list.
pub open spec fn task_rows(v: AppView) -> nat {
    active_order(v.day.tasks).len()
}

/// The number of rows of the timeline.
pub open spec fn block_rows(v: AppView) -> nat {
    v.day.blocks.len()
}

/// The nanoseconds from `from` to `to` (negative when `to` is earlier).
pub open spec fn nanos_between(from: Timestamp, to: Timestamp) -> int {
    (to.secs - from.secs) * 1_000_000_000 + (to.nanos - from.nanos)
}

/// The focus timer ends `minutes` after `started`; the whole seconds left at
/// `now` (rounded up), while it runs. A clock that went back counts as no
/// time passed.
pub open spec fn focus_remaining(minutes: u32, started: Option<Timestamp>, now: Timestamp) -> Option<u64> {
    match started {
        None => None,
        Some(s) => {
            let total = minutes * 60_000_000_000int;
            let elapsed = if nanos_between(s, now) < 0 { 0 } else { nanos_between(s, now) };
            if elapsed >= total {
                None
            } else {
                Some(((total - elapsed + 999_999_999) / 1_000_000_000) as u64)
            }
        },
    }
}

impl AppView {
    /// The id of the selected open task.
    pub open spec fn selected_task(self) -> Option<u128> {
        match self.task_sel {
            Some(i) => if i < active_order(self.day.tasks).len() {
                Some(self.day.tasks[active_order(self.day.tasks)[i as int] as int].id)
            } else {
                None
            },
            None => None,
        }
    }

    /// The id of the selected block.
    pub open spec fn selected_block(self) -> Option<u128> {
        match self.block_sel {
            Some(i) => if i < timeline_order(self.day.blocks).len() {
                Some(self.day.blocks[timeline_order(self.day.blocks)[i as int] as int].id)
            } else {
                None
            },
            None => None,
        }
    }

    /// The status line after a hint at the next step of the flow.
    pub open spec fn flow_hint(self) -> AppView {
        AppView {
            status: match self.screen {
                CurrentScreen::Plan => "enter to begin executing"@,
                CurrentScreen::Execute => "f or :finish to review"@,
                CurrentScreen::Review => "review done. start a new session later."@,
            },
            ..self
        }
    }

    /// After switching panes: in review only a hint; elsewhere the timeline
    /// and the task list take turns.
    pub open spec fn next_pane(self) -> AppView {
        if self.screen == CurrentScreen::Review {
            self.flow_hint()
        } else if self.pane == ActivePane::Tasks {
            AppView { pane: ActivePane::Timeline, status: "timeline selected"@, ..self }
        } else if self.pane == ActivePane::Timeline {
            AppView { pane: ActivePane::Tasks, status: "tasks selected"@, ..self }
        } else {
            AppView { pane: ActivePane::Timeline, status: "timeline selected"@, ..self }
        }
    }

    /// After moving down in the active pane; nothing moves in review.
    pub open spec fn scroll_down(self) -> AppView {
        if self.screen == CurrentScreen::Review {
            self
        } else if self.pane == ActivePane::Timeline {
            AppView { block_sel: next_selection(self.block_sel, block_rows(self)), ..self }
        } else {
            AppView { task_sel: next_selection(self.task_sel, task_rows(self)), ..self }
        }
    }

    /// After moving up in the active pane; nothing moves in review.
    pub open spec fn scroll_up(self) -> AppView {
        if self.screen == CurrentScreen::Review {
            self
        } else if self.pane == ActivePane::Timeline {
            AppView { block_sel: prev_selection(self.block_sel, block_rows(self)), ..self }
        } else {
            AppView { task_sel: prev_selection(self.task_sel, task_rows(self)), ..self }
        }
    }

    /// After asking to execute: only the plan moves on, to execute with the
    /// task list active.
    pub open spec fn start_execution(self) -> AppView {
        match self.screen {
            CurrentScreen::Plan => AppView {
                screen: CurrentScreen::Execute,
                pane: ActivePane::Tasks,
                status: "execute. time to get things done."@,
                ..self
            },
            CurrentScreen::Execute => AppView { status: "getting things done. f to finish"@, ..self },
            CurrentScreen::Review => AppView { status: "review. see what worked. see what didnt'."@, ..self },
        }
    }

    /// After the selections are brought within the lists.
    pub open spec fn sync_selection(self) -> AppView {
        AppView {
            block_sel: clamped_selection(self.block_sel, block_rows(self)),
            task_sel: clamped_selection(self.task_sel, task_rows(self)),
            ..self
        }
    }

    /// After a focus timer of `minutes` was started.
    pub open spec fn start_focus(self, minutes: u32) -> AppView {
        AppView {
            focus_minutes: minutes,
            status: "focus started: "@ + decimal(minutes as nat) + "m"@,
            ..self
        }
    }
}

/// The screen as it opens on a day: the plan, with the timeline active and the
/// first row of each non-empty list selected.
pub open spec fn opening_view(day: DayModel) -> AppView {
    AppView {
        screen: CurrentScreen::Plan,
        pane: ActivePane::Timeline,
        command_mode: false,
        buffer: seq![],
        show_help: false,
        status: "READY - press '?' for help"@,
        task_sel: if active_order(day.tasks).len() > 0 { Some(0) } else { None },
        block_sel: if day.blocks.len() > 0 { Some(0) } else { None },
        focus_minutes: 0,
        day,
    }
}

impl AppState {
    /// The screen as it opens on `day`.
    pub fn from_day(day: DayState) -> (app: Self)
        ensures
            app@ == opening_view(day@),
            app.focus_started_at is None,
    {
        let has_tasks = day.active_tasks().len() > 0;
        let mut task_state = ListSelection::none();
        if has_tasks {
            task_state.select(Some(0));
        }
        let mut block_state = ListSelection::none();
        if day.blocks.len() > 0 {
            block_state.select(Some(0));
        }
        AppState {
            current_screen: CurrentScreen::Plan,
            day,
            task_state,
            block_state,
            command_mode: false,
            command_buffer: String::new(),
            show_help: false,
            status_message: owned("READY - press '?' for help"),
            active_pane: ActivePane::Timeline,
            focus_minutes: 0,
            focus_started_at: None,
        }
    }

    /// Switches between the timeline and the task list; in review, a hint.
    pub fn next_pane(&mut self)
        ensures
            final(self)@ == old(self)@.next_pane(),
            final(self).focus_started_at == old(self).focus_started_at,
    {
        if self.current_screen == CurrentScreen::Review {
            self.flow_hint();
            return;
        }
        self.active_pane = match self.active_pane {
            ActivePane::Timeline => ActivePane::Tasks,
            ActivePane::Tasks => ActivePane::Timeline,
            ActivePane::CarryForward => ActivePane::Timeline,
        };
        self.status_message = match self.active_pane {
            ActivePane::Tasks => owned("tasks selected"),
            _ => owned("timeline selected"),
        };
    }

    /// The blocks in timeline order.
    pub fn visible_blocks(&self) -> (r: Vec<&Block>)
        ensures
            is_stable_order(block_keys(self.day.blocks@), all_chosen(self.day.blocks@.len()), timeline_order(self.day.blocks@)),
            refs_are(r@, timeline_order(self.day.blocks@).map_values(|i: usize| self.day.blocks@[i as int])),
            r@.len() == self.day.blocks@.len(),
    {
        let blocks = &self.day.blocks;
        let n = blocks.len();
        proof { lemma_timeline_len(blocks@); }
        let mut keys: Vec<(u64, i128)> = Vec::new();
        let mut chosen: Vec<bool> = Vec::new();
        let mut i: usize = 0;
        while i < n
            invariant
                i <= n == blocks.len(),
                keys.len() == i && chosen.len() == i,
                forall|k: int| 0 <= k < i ==> keys@[k] == #[trigger] block_keys(blocks@)[k],
                forall|k: int| 0 <= k < i ==> chosen@[k] == #[trigger] all_chosen(n as nat)[k],
            decreases n - i,
        {
            keys.push(timing_key(&blocks[i].timing));
            chosen.push(true);
            i = i + 1;
        }
        assert(keys@ =~= block_keys(blocks@));
        assert(chosen@ =~= all_chosen(n as nat));
        let order = stable_order(&keys, &chosen);
        let ghost want = timeline_order(blocks@).map_values(|i: usize| blocks@[i as int]);
        let mut r: Vec<&Block> = Vec::new();
        let mut k: usize = 0;
        while k < order.len()
            invariant
                k <= order.len(),
                n == blocks.len(),
                order@ == timeline_order(blocks@),
                is_stable_order(block_keys(blocks@), all_chosen(n as nat), order@),
                want == order@.map_values(|i: usize| blocks@[i as int]),
                r.len() == k,
                forall|m: int| 0 <= m < k ==> *r@[m] == want[m],
            decreases order.len() - k,
        {
            assert(order@[k as int] < n);
            r.push(&blocks[order[k]]);
            k = k + 1;
        }
        r
    }

    /// The block that the plan's details show: the selected one, or else the
    /// first on the timeline.
    pub fn selected_block(&self) -> (r: Option<&Block>)
        ensures
            ({
                let order = timeline_order(self.day.blocks@);
                let shown = match self.block_state.selected {
                    Some(i) => if i < order.len() { Some(i as int) } else if order.len() > 0 { Some(0int) } else { None },
                    None => if order.len() > 0 { Some(0int) } else { None },
                };
                match shown {
                    Some(k) => r is Some && *r->0 == self.day.blocks@[order[k] as int],
                    None => r is None,
                }
            }),
    {
        let blocks = self.visible_blocks();
        match self.block_state.selected() {
            Some(i) => if i < blocks.len() {
                return Some(blocks[i]);
            },
            None => {},
        }
        if blocks.len() > 0 {
            Some(blocks[0])
        } else {
            None
        }
    }

    /// The open tasks in the order the task list shows them.
    pub fn visible_tasks(&self) -> (r: Vec<&Task>)
        ensures
            refs_are(r@, active_order(self.day.tasks@).map_values(|i: usize| self.day.tasks@[i as int])),
    {
        self.day.active_tasks()
    }

    /// The id of the selected task, if the selection is on a row.
    pub fn selected_task_id(&self) -> (r: Option<u128>)
        ensures
            r == self@.selected_task(),
    {
        let tasks = self.visible_tasks();
        match self.task_state.selected() {
            Some(i) => if i < tasks.len() {
                Some(tasks[i].id)
            } else {
                None
            },
            None => None,
        }
    }

    /// The id of the selected block, if the selection is on a row.
    pub fn selected_block_id(&self) -> (r: Option<u128>)
        ensures
            r == self@.selected_block(),
    {
        let blocks = self.visible_blocks();
        match self.block_state.selected() {
            Some(i) => if i < blocks.len() {
                Some(blocks[i].id)
            } else {
                None
            },
            None => None,
        }
    }

    /// Moves the selection of the active pane down; nothing in review.
    pub fn scroll_down(&mut self)
        ensures
            final(self)@ == old(self)@.scroll_down(),
            final(self).focus_started_at == old(self).focus_started_at,
    {
        if self.current_screen == CurrentScreen::Review {
            return;
        }
        match self.active_pane {
            ActivePane::Timeline => {
                let len = self.day.blocks.len();
                select_next(&mut self.block_state, len);
            },
            _ => {
                let len = self.visible_tasks().len();
                select_next(&mut self.task_state, len);
            },
        }
    }

    /// Moves the selection of the active pane up; nothing in review.
    pub fn scroll_up(&mut self)
        ensures
            final(self)@ == old(self)@.scroll_up(),
            final(self).focus_started_at == old(self).focus_started_at,
    {
        if self.current_screen == CurrentScreen::Review {
            return;
        }
        match self.active_pane {
            ActivePane::Timeline => {
                let len = self.day.blocks.len();
                select_prev(&mut self.block_state, len);
            },
            _ => {
                let len = self.visible_tasks().len();
                select_prev(&mut self.task_state, len);
            },
        }
    }

    /// Moves from plan to execute; elsewhere, a word on where the day stands.
    pub fn start_execution(&mut self)
        ensures
            final(self)@ == old(self)@.start_execution(),
            final(self).focus_started_at == old(self).focus_started_at,
    {
        match self.current_screen {
            CurrentScreen::Plan => {
                self.current_screen = CurrentScreen::Execute;
                self.active_pane = ActivePane::Tasks;
                self.status_message = owned("execute. time to get things done.");
            },
            CurrentScreen::Execute => {
                self.status_message = owned("getting things done. f to finish");
            },
            CurrentScreen::Review => {
                self.status_message = owned("review. see what worked. see what didnt'.");
            },
        }
    }

    /// Shows a hint at the next step of the flow.
    pub fn flow_hint(&mut self)
        ensures
            final(self)@ == old(self)@.flow_hint(),
            final(self).focus_started_at == old(self).focus_started_at,
    {
        self.status_message = match self.current_screen {
            CurrentScreen::Plan => owned("enter to begin executing"),
            CurrentScreen::Execute => owned("f or :finish to review"),
            CurrentScreen::Review => owned("review done. start a new session later."),
        };
    }

    /// Brings both selections within their lists.
    pub fn sync_selection(&mut self)
        ensures
            final(self)@ == old(self)@.sync_selection(),
            final(self).focus_started_at == old(self).focus_started_at,
    {
        let block_len = self.day.blocks.len();
        let task_len = self.visible_tasks().len();
        clamp_selection(&mut self.block_state, block_len);
        clamp_selection(&mut self.task_state, task_len);
    }

    /// Starts a focus timer of `minutes`, from now.
    pub fn start_focus(&mut self, minutes: u32)
        ensures
            final(self)@ == old(self)@.start_focus(minutes),
            final(self).focus_started_at is Some,
    {
        self.focus_minutes = minutes;
        self.focus_started_at = Some(now_stamp());
        let mut cs = chars_of("focus started: ");
        extend_chars(&mut cs, &decimal_chars(minutes as u64));
        extend_str(&mut cs, "m");
        self.status_message = string_of(cs.as_slice());
    }

    /// The whole seconds left on the focus timer at `now`, while it runs.
    pub fn focus_remaining_at(&self, now: Timestamp) -> (r: Option<u64>)
        ensures
            r == focus_remaining(self.focus_minutes, self.focus_started_at, now),
    {
        match self.focus_started_at {
            None => None,
            Some(s) => {
                let total: i128 = (self.focus_minutes as i128) * 60_000_000_000;
                let secs: i128 = (now.secs as i128) - (s.secs as i128);
                let diff: i128 = secs * 1_000_000_000 + ((now.nanos as i128) - (s.nanos as i128));
                let elapsed: i128 = if diff < 0 { 0 } else { diff };
                if elapsed >= total {
                    None
                } else {
                    Some(((total - elapsed + 999_999_999) / 1_000_000_000) as u64)
                }
            },
        }
    }

    /// The whole seconds left on the focus timer now, while it runs.
    pub fn focus_remaining_seconds(&self) -> (r: Option<u64>)
        ensures
            exists|now: Timestamp| r == focus_remaining(self.focus_minutes, self.focus_started_at, now),
            self.focus_started_at is None ==> r is None,
    {
        let now = now_stamp();
        self.focus_remaining_at(now)
    }
}


} // verus!
