//! What holds of the day across events, and of the screen across inputs.
use vstd::prelude::*;

use crate::models::{
    active_order, block_after_start, block_is_active, empty_day, first_index, lemma_first_index, open_flags, spec_apply, spec_replay,
    lemma_stamp_key_orders, stamp_not_after, task_has_id, task_keys, tasks_after_close, BlockStatus, DayModel, Event, EventKind, Task, TaskStatus,
};
use crate::order::{lemma_stable_order_exists, listed, precedes};
use crate::action::Action;
use crate::models::{block_is_planned, spec_review_text, Block, BlockTiming, Planned};
use crate::text::{decimal, same_ignoring_ascii_case};
use crate::store::{lemma_time_minutes_small, spec_looks_like_time, spec_time_minutes};
use crate::state::{
    all_chosen, block_keys, block_rows, clamped_selection, lemma_timeline_len, task_rows, timeline_order,
    timing_minute, timing_rank, AppView, CurrentScreen,
};
use crate::store::{palette_plan, task_for_reference};
use crate::text::{lowercase, occurs_in, parse_usize};
use crate::text::{is_space, trim, trim_end, trim_start, trim_start_char};
use crate::update::{spec_update, spec_focus_minutes, Outcome};
use crate::state::ActivePane;

verus! {

/// The state built by applying the events, in order, to `start`.
pub open spec fn replay_onto(start: DayModel, events: Seq<Event>) -> DayModel
    decreases events.len(),
{
    if events.len() == 0 {
        start
    } else {
        spec_apply(replay_onto(start, events.drop_last()), events.last())
    }
}

/// Replaying is applying the events one by one to an empty day.
pub proof fn law_replay_is_onto_empty(date: i32, events: Seq<Event>)
    ensures
        spec_replay(date, events) == replay_onto(empty_day(date), events),
    decreases events.len(),
{
    if events.len() > 0 {
        law_replay_is_onto_empty(date, events.drop_last());
    }
}

/// Replaying a log that was extended gives what replaying the first part and
/// then applying the rest gives: loading after an append is applying it.
pub proof fn law_replay_extends(start: DayModel, first: Seq<Event>, rest: Seq<Event>)
    ensures
        replay_onto(start, first + rest) == replay_onto(replay_onto(start, first), rest),
    decreases rest.len(),
{
    if rest.len() == 0 {
        assert(first + rest =~= first);
    } else {
        law_replay_extends(start, first, rest.drop_last());
        assert((first + rest).drop_last() =~= first + rest.drop_last());
        assert((first + rest).last() == rest.last());
    }
}

/// Every event is kept: the history of the replayed day is the log itself.
pub proof fn law_history_is_the_log(date: i32, events: Seq<Event>)
    ensures
        spec_replay(date, events).history == events,
    decreases events.len(),
{
    if events.len() > 0 {
        law_history_is_the_log(date, events.drop_last());
        assert(events.drop_last().push(events.last()) =~= events);
    }
}

/// Nothing is ever taken out of the day: sessions, blocks, tasks and notes
/// only grow, and what is there keeps its id.
pub proof fn law_apply_keeps_items(m: DayModel, e: Event)
    ensures
        spec_apply(m, e).sessions.len() >= m.sessions.len(),
        spec_apply(m, e).blocks.len() >= m.blocks.len(),
        spec_apply(m, e).tasks.len() >= m.tasks.len(),
        spec_apply(m, e).notes.len() >= m.notes.len(),
        forall|i: int| 0 <= i < m.tasks.len() ==> #[trigger] spec_apply(m, e).tasks[i].id == m.tasks[i].id,
        forall|i: int| 0 <= i < m.blocks.len() ==> #[trigger] spec_apply(m, e).blocks[i].id == m.blocks[i].id,
        forall|i: int| 0 <= i < m.sessions.len() ==> #[trigger] spec_apply(m, e).sessions[i].id == m.sessions[i].id,
{
    match e.kind {
        EventKind::TaskCompleted { task_id } => lemma_first_index(m.tasks, task_has_id(task_id)),
        EventKind::TaskDropped { task_id } => lemma_first_index(m.tasks, task_has_id(task_id)),
        EventKind::TaskRemoved { task_id } => lemma_first_index(m.tasks, task_has_id(task_id)),
        EventKind::TaskPriorityChanged { task_id, .. } => lemma_first_index(m.tasks, task_has_id(task_id)),
        EventKind::BlockFinished { block_id } => lemma_first_index(m.blocks, crate::models::block_has_id(block_id)),
        EventKind::SessionFinished { session_id } => lemma_first_index(m.sessions, crate::models::session_has_id(session_id)),
        _ => {},
    }
}

/// A finished day stays finished, with no current session.
pub proof fn law_finished_day_stays_finished(m: DayModel, e: Event)
    requires
        m.day_finished,
    ensures
        spec_apply(m, e).day_finished,
{
}

/// Finishing the day closes every session and leaves none current.
pub proof fn law_day_finished_closes_sessions(m: DayModel, e: Event)
    requires
        e.kind == EventKind::DayFinished,
    ensures
        spec_apply(m, e).day_finished,
        spec_apply(m, e).current_session_id is None,
        forall|i: int| 0 <= i < spec_apply(m, e).sessions.len() ==> (#[trigger] spec_apply(m, e).sessions[i]).finished_at is Some,
{
}

/// Starting a session makes it the current one; finishing the current session
/// leaves none current.
pub proof fn law_session_start_and_finish(m: DayModel, e: Event, s: u128)
    ensures
        e.kind == (EventKind::SessionStarted { session_id: s }) ==> spec_apply(m, e).current_session_id == Some(s),
        e.kind == (EventKind::SessionFinished { session_id: s }) && m.current_session_id == Some(s)
            ==> spec_apply(m, e).current_session_id is None,
{
}

/// After a block is started, it is the only block that can be active: every
/// active block carries its id.
pub proof fn law_started_block_is_the_active_one(m: DayModel, e: Event, b: u128)
    requires
        e.kind == (EventKind::BlockStarted { block_id: b }),
    ensures
        forall|i: int| 0 <= i < spec_apply(m, e).blocks.len() && (#[trigger] spec_apply(m, e).blocks[i]).status == BlockStatus::Active
            ==> spec_apply(m, e).blocks[i].id == b,
        forall|i: int| 0 <= i < m.blocks.len() && m.blocks[i].id == b
            ==> (#[trigger] spec_apply(m, e).blocks[i]).status == BlockStatus::Active,
{
    assert forall|i: int| 0 <= i < spec_apply(m, e).blocks.len() && (#[trigger] spec_apply(m, e).blocks[i]).status == BlockStatus::Active
        implies spec_apply(m, e).blocks[i].id == b by {
        assert(spec_apply(m, e).blocks[i] == block_after_start(m.blocks[i], b, e.at));
    }
    assert forall|i: int| 0 <= i < m.blocks.len() && m.blocks[i].id == b
        implies (#[trigger] spec_apply(m, e).blocks[i]).status == BlockStatus::Active by {
        assert(spec_apply(m, e).blocks[i] == block_after_start(m.blocks[i], b, e.at));
    }
}

/// No two blocks share an id.
pub open spec fn distinct_block_ids(blocks: Seq<Block>) -> bool {
    forall|i: int, j: int| 0 <= i < j < blocks.len() ==> blocks[i].id != blocks[j].id
}

/// At most one block is active.
pub open spec fn at_most_one_active(blocks: Seq<Block>) -> bool {
    forall|i: int, j: int| 0 <= i < j < blocks.len() && #[trigger] blocks[i].status == BlockStatus::Active
        ==> #[trigger] blocks[j].status != BlockStatus::Active
}

/// A block that the event adds has an id that no block has yet.
pub open spec fn adds_fresh_block(m: DayModel, e: Event) -> bool {
    match e.kind {
        EventKind::BlockAdded { block_id, .. } => forall|i: int| 0 <= i < m.blocks.len() ==> #[trigger] m.blocks[i].id != block_id,
        _ => true,
    }
}

/// While blocks are added under fresh ids, ids stay distinct and there is at
/// most one active block: what is happening now is one thing, and any active
/// block is the first active one, the block the day reports as current.
pub proof fn law_one_active_block(m: DayModel, e: Event)
    requires
        distinct_block_ids(m.blocks),
        at_most_one_active(m.blocks),
        adds_fresh_block(m, e),
    ensures
        distinct_block_ids(spec_apply(m, e).blocks),
        at_most_one_active(spec_apply(m, e).blocks),
        forall|i: int| 0 <= i < spec_apply(m, e).blocks.len() && #[trigger] spec_apply(m, e).blocks[i].status == BlockStatus::Active
            ==> first_index(spec_apply(m, e).blocks, block_is_active()) == Some(i),
{
    let after = spec_apply(m, e).blocks;
    lemma_one_active_block_kept(m, e);
    lemma_first_index(after, block_is_active());
    assert forall|i: int| 0 <= i < after.len() && #[trigger] after[i].status == BlockStatus::Active
        implies first_index(after, block_is_active()) == Some(i) by {
        let f = first_index(after, block_is_active())->0;
        if f < i {
            assert(after[f].status == BlockStatus::Active);
        } else if i < f {
            assert(!block_is_active()(after[i]));
        }
    }
}

proof fn lemma_one_active_block_kept(m: DayModel, e: Event)
    requires
        distinct_block_ids(m.blocks),
        at_most_one_active(m.blocks),
        adds_fresh_block(m, e),
    ensures
        distinct_block_ids(spec_apply(m, e).blocks),
        at_most_one_active(spec_apply(m, e).blocks),
{
    let after = spec_apply(m, e).blocks;
    match e.kind {
        EventKind::BlockAdded { block_id, .. } => {
            assert forall|i: int, j: int| 0 <= i < j < after.len() implies after[i].id != after[j].id by {
                if j == m.blocks.len() {
                    assert(after[i] == m.blocks[i]);
                }
            }
        },
        EventKind::BlockStarted { block_id } => {
            assert forall|i: int, j: int| 0 <= i < j < after.len() && #[trigger] after[i].status == BlockStatus::Active
                implies #[trigger] after[j].status != BlockStatus::Active by {
                assert(after[i] == block_after_start(m.blocks[i], block_id, e.at));
                assert(after[j] == block_after_start(m.blocks[j], block_id, e.at));
            }
            assert forall|i: int, j: int| 0 <= i < j < after.len() implies after[i].id != after[j].id by {
                assert(after[i] == block_after_start(m.blocks[i], block_id, e.at));
                assert(after[j] == block_after_start(m.blocks[j], block_id, e.at));
            }
        },
        EventKind::BlockFinished { block_id } => {
            lemma_first_index(m.blocks, crate::models::block_has_id(block_id));
        },
        _ => {},
    }
}

/// No two tasks share an id.
pub open spec fn distinct_task_ids(tasks: Seq<Task>) -> bool {
    forall|i: int, j: int| 0 <= i < j < tasks.len() ==> tasks[i].id != tasks[j].id
}

/// The task closed under `status`.
pub open spec fn closing_kind(task_id: u128, status: TaskStatus) -> EventKind {
    match status {
        TaskStatus::Done => EventKind::TaskCompleted { task_id },
        TaskStatus::Dropped => EventKind::TaskDropped { task_id },
        _ => EventKind::TaskRemoved { task_id },
    }
}

/// Completing, dropping or removing a task closes it with that status and
/// takes it off the task list, while it stays in the day; the other tasks are
/// untouched.
pub proof fn law_closed_task_leaves_the_list(m: DayModel, e: Event, task_id: u128, status: TaskStatus)
    requires
        status != TaskStatus::Open,
        e.kind == closing_kind(task_id, status),
        distinct_task_ids(m.tasks),
        m.tasks.len() <= usize::MAX,
    ensures
        spec_apply(m, e).tasks.len() == m.tasks.len(),
        forall|i: int| 0 <= i < m.tasks.len() && m.tasks[i].id == task_id
            ==> (#[trigger] spec_apply(m, e).tasks[i]).status == status && spec_apply(m, e).tasks[i].closed_at is Some,
        forall|i: int| 0 <= i < m.tasks.len() && m.tasks[i].id != task_id
            ==> #[trigger] spec_apply(m, e).tasks[i] == m.tasks[i],
        forall|k: int| 0 <= k < active_order(spec_apply(m, e).tasks).len()
            ==> spec_apply(m, e).tasks[#[trigger] active_order(spec_apply(m, e).tasks)[k] as int].id != task_id,
{
    let after = spec_apply(m, e);
    lemma_first_index(m.tasks, task_has_id(task_id));
    assert(after.tasks == tasks_after_close(m.tasks, task_id, status, e.at));
    lemma_stable_order_exists(task_keys(after.tasks), open_flags(after.tasks));
    match first_index(m.tasks, task_has_id(task_id)) {
        Some(f) => {
            assert forall|i: int| 0 <= i < m.tasks.len() && m.tasks[i].id == task_id implies i == f by {
                if i < f {
                    assert(!task_has_id(task_id)(m.tasks[i]));
                } else if i > f {
                    assert(m.tasks[f].id != m.tasks[i].id);
                }
            }
        },
        None => {},
    }
    let order = active_order(after.tasks);
    assert forall|k: int| 0 <= k < order.len() implies after.tasks[#[trigger] order[k] as int].id != task_id by {
        let p = order[k] as int;
        assert(open_flags(after.tasks)[p]);
        assert(after.tasks[p].status == TaskStatus::Open);
    }
}

/// The task list shows open tasks only, priority tasks before the others, and
/// within each group the earlier created first.
pub proof fn law_task_list_order(tasks: Seq<Task>)
    requires
        tasks.len() <= usize::MAX,
    ensures
        forall|k: int| 0 <= k < active_order(tasks).len()
            ==> tasks[#[trigger] active_order(tasks)[k] as int].status == TaskStatus::Open,
        forall|k: int, l: int| #![trigger active_order(tasks)[k], active_order(tasks)[l]] 0 <= k < l < active_order(tasks).len()
            ==> ({
                let a = tasks[active_order(tasks)[k] as int];
                let b = tasks[active_order(tasks)[l] as int];
                (a.priority && !b.priority) || (a.priority == b.priority && stamp_not_after(a.created_at, b.created_at))
            }),
        forall|i: int| 0 <= i < tasks.len() && tasks[i].status == TaskStatus::Open
            ==> exists|k: int| 0 <= k < active_order(tasks).len() && #[trigger] active_order(tasks)[k] as int == i,
{
    let order = active_order(tasks);
    let keys = task_keys(tasks);
    lemma_stable_order_exists(keys, open_flags(tasks));
    assert forall|k: int| 0 <= k < order.len() implies tasks[#[trigger] order[k] as int].status == TaskStatus::Open by {
        assert(open_flags(tasks)[order[k] as int]);
    }
    assert forall|k: int, l: int| #![trigger order[k], order[l]] 0 <= k < l < order.len() implies ({
        let a = tasks[order[k] as int];
        let b = tasks[order[l] as int];
        (a.priority && !b.priority) || (a.priority == b.priority && stamp_not_after(a.created_at, b.created_at))
    }) by {
        assert(precedes(keys, order[k] as int, order[l] as int));
        lemma_stamp_key_orders(tasks[order[k] as int].created_at, tasks[order[l] as int].created_at);
    }
    assert forall|i: int| 0 <= i < tasks.len() && tasks[i].status == TaskStatus::Open
        implies exists|k: int| 0 <= k < order.len() && #[trigger] order[k] as int == i by {
        assert(open_flags(tasks)[i]);
    }
}

/// The flow of the day only moves forward, one step at a time: plan, execute,
/// review, and back to plan only by starting a new session on a day that is
/// not finished. No input changes the day itself.
pub proof fn law_flow_moves_forward(v: AppView, a: Action)
    ensures
        spec_update(v, a).0.day == v.day,
        ({
            let w = spec_update(v, a).0;
            ||| w.screen == v.screen
            ||| (v.screen == CurrentScreen::Plan && w.screen == CurrentScreen::Execute)
            ||| (v.screen == CurrentScreen::Execute && w.screen == CurrentScreen::Review)
            ||| (v.screen == CurrentScreen::Review && w.screen == CurrentScreen::Plan
                && !v.day.day_finished && spec_update(v, a).1 == Some(Outcome::Append(Planned::NewSession)))
        }),
{
}

/// `enter` moves from plan to execute, and nowhere else; `tab` changes the
/// pane, never the screen.
pub proof fn law_enter_and_tab(v: AppView)
    requires
        !v.command_mode,
    ensures
        spec_update(v, Action::Enter).0.screen == (if v.screen == CurrentScreen::Plan { CurrentScreen::Execute } else { v.screen }),
        spec_update(v, Action::NextTab).0.screen == v.screen,
        spec_update(v, Action::PrevTab).0.screen == v.screen,
{
}

/// The day is finished only from review, and focus is logged only while
/// executing.
pub proof fn law_finish_day_and_focus_only_in_their_screen(v: AppView, a: Action)
    ensures
        spec_update(v, a).1 == Some(Outcome::Append(Planned::Kind(EventKind::DayFinished))) ==> v.screen == CurrentScreen::Review,
        (exists|m: u32| spec_update(v, a).1 == Some(Outcome::Append(Planned::Kind(EventKind::FocusLogged { minutes: m }))))
            ==> v.screen == CurrentScreen::Execute,
{
}

/// The selection is within its list, or absent only for an empty list.
pub open spec fn selection_fits(sel: Option<usize>, len: nat) -> bool {
    match sel {
        Some(i) => i < len,
        None => len == 0,
    }
}

/// Syncing clamps each selection to its list as the screen shows it (the
/// timeline, the open tasks): none for an empty list, else the old row or row
/// 0, at most the last row. So both selections fit, a block and a task are
/// selected exactly when their lists are not empty, and syncing again changes
/// nothing.
pub proof fn law_sync_selection(v: AppView)
    requires
        v.day.blocks.len() <= usize::MAX,
    ensures
        v.sync_selection().block_sel == clamped_selection(v.block_sel, timeline_order(v.day.blocks).len()),
        v.sync_selection().task_sel == clamped_selection(v.task_sel, active_order(v.day.tasks).len()),
        selection_fits(v.sync_selection().block_sel, timeline_order(v.day.blocks).len()),
        selection_fits(v.sync_selection().task_sel, task_rows(v)),
        v.sync_selection().selected_block() is Some <==> v.day.blocks.len() > 0,
        v.sync_selection().selected_task() is Some <==> task_rows(v) > 0,
        v.sync_selection().sync_selection() == v.sync_selection(),
{
    lemma_timeline_len(v.day.blocks);
}

/// Moving up or down keeps a fitting selection fitting.
pub proof fn law_scroll_keeps_selection_fitting(v: AppView)
    requires
        selection_fits(v.task_sel, task_rows(v)),
        selection_fits(v.block_sel, block_rows(v)),
    ensures
        selection_fits(v.scroll_down().task_sel, task_rows(v)),
        selection_fits(v.scroll_down().block_sel, block_rows(v)),
        selection_fits(v.scroll_up().task_sel, task_rows(v)),
        selection_fits(v.scroll_up().block_sel, block_rows(v)),
{
}

/// The timeline lists every block, `now` blocks first, then `next`, then the
/// blocks at a clock time from the earliest, then the rest.
pub proof fn law_timeline_order(blocks: Seq<Block>)
    requires
        blocks.len() <= usize::MAX,
    ensures
        forall|k: int, l: int| #![trigger timeline_order(blocks)[k], timeline_order(blocks)[l]]
            0 <= k < l < timeline_order(blocks).len() ==> ({
                let a = blocks[timeline_order(blocks)[k] as int].timing;
                let b = blocks[timeline_order(blocks)[l] as int].timing;
                timing_rank(a) < timing_rank(b) || (timing_rank(a) == timing_rank(b) && timing_minute(a) <= timing_minute(b))
            }),
        forall|i: int| 0 <= i < blocks.len() ==> #[trigger] listed(timeline_order(blocks), i),
        timeline_order(blocks).len() == blocks.len(),
        forall|k: int, l: int| #![trigger timeline_order(blocks)[k], timeline_order(blocks)[l]]
            0 <= k < l < timeline_order(blocks).len() ==> timeline_order(blocks)[k] != timeline_order(blocks)[l],
{
    let keys = block_keys(blocks);
    lemma_timeline_len(blocks);
    crate::order::lemma_precedes_order(keys);
    let order = timeline_order(blocks);
    assert forall|k: int, l: int| #![trigger order[k], order[l]] 0 <= k < l < order.len() implies order[k] != order[l] by {
        assert(precedes(keys, order[k] as int, order[l] as int));
    }
    assert forall|k: int, l: int| #![trigger order[k], order[l]] 0 <= k < l < order.len() implies ({
        let a = blocks[order[k] as int].timing;
        let b = blocks[order[l] as int].timing;
        timing_rank(a) < timing_rank(b) || (timing_rank(a) == timing_rank(b) && timing_minute(a) <= timing_minute(b))
    }) by {
        assert(precedes(keys, order[k] as int, order[l] as int));
    }
    assert forall|i: int| 0 <= i < blocks.len() implies #[trigger] listed(order, i) by {
        assert(all_chosen(blocks.len())[i]);
    }
}

/// A leading non-space character survives trimming the end.
proof fn lemma_trim_end_after_char(c: char, s: Seq<char>)
    requires
        !is_space(c),
    ensures
        trim_end(seq![c] + s) == seq![c] + trim_end(s),
    decreases s.len(),
{
    if s.len() > 0 && is_space(s.last()) {
        assert((seq![c] + s).drop_last() =~= seq![c] + s.drop_last());
        lemma_trim_end_after_char(c, s.drop_last());
    } else if s.len() == 0 {
        assert(seq![c] + s =~= seq![c]);
    }
}

/// A palette command may start with a colon: `:CMD` does what `CMD` does.
pub proof fn law_palette_ignores_leading_colon(day: DayModel, s: Seq<char>)
    requires
        s.len() == 0 || !is_space(s[0]),
    ensures
        palette_plan(day, seq![':'] + s) == palette_plan(day, s),
{
    let cs = seq![':'] + s;
    assert(!is_space(':'));
    assert(trim_start(cs) == cs);
    assert(trim_start(s) == s);
    lemma_trim_end_after_char(':', s);
    let t = trim_end(s);
    assert(trim(cs) == seq![':'] + t);
    assert((seq![':'] + t).drop_first() =~= t);
    assert(trim_start_char(seq![':'] + t, ':') == trim_start_char(t, ':'));
    assert(trim(s) == t);
}


/// Adding a block appends exactly one block, made from the event: its id,
/// title, intent and timing, planned, created at the event's time and neither
/// started nor finished. The blocks before it are untouched, so the day has
/// a next block to start.
pub proof fn law_added_block_is_planned(m: DayModel, e: Event)
    requires
        e.kind is BlockAdded,
    ensures
        ({
            let after = spec_apply(m, e).blocks;
            match e.kind {
                EventKind::BlockAdded { block_id, title, intent, timing } => {
                    &&& after.len() == m.blocks.len() + 1
                    &&& forall|i: int| 0 <= i < m.blocks.len() ==> #[trigger] after[i] == m.blocks[i]
                    &&& after.last().id == block_id
                    &&& after.last().title == title
                    &&& after.last().intent == intent
                    &&& after.last().timing == timing
                    &&& after.last().status == BlockStatus::Planned
                    &&& after.last().created_at == e.at
                    &&& after.last().started_at is None
                    &&& after.last().finished_at is None
                },
                _ => true,
            }
        }),
        first_index(spec_apply(m, e).blocks, block_is_planned()) is Some,
        spec_apply(m, e).tasks == m.tasks,
        spec_apply(m, e).sessions == m.sessions,
{
    let after = spec_apply(m, e).blocks;
    lemma_first_index(after, block_is_planned());
    if first_index(after, block_is_planned()) is None {
        assert(!block_is_planned()(after[after.len() - 1]));
    }
}

/// How many items of `s` satisfy `p`.
pub open spec fn count_where<T>(s: Seq<T>, p: spec_fn(T) -> bool) -> nat
    decreases s.len(),
{
    if s.len() == 0 {
        0
    } else {
        count_where(s.drop_last(), p) + if p(s.last()) { 1nat } else { 0nat }
    }
}

/// Keeping the items that satisfy `p` keeps as many as `count_where` counts.
proof fn lemma_filter_counts<T>(s: Seq<T>, p: spec_fn(T) -> bool)
    ensures
        s.filter(p).len() == count_where(s, p),
    decreases s.len(),
{
    reveal_with_fuel(Seq::<_>::filter, 1);
    if s.len() > 0 {
        lemma_filter_counts(s.drop_last(), p);
    }
}

/// The review counts the tasks that are done, the tasks that are both open and
/// priority, the blocks that are done, the tasks that were dropped, and the
/// minutes of focus, each on its own labelled line.
pub proof fn law_review_counts(m: DayModel)
    ensures
        spec_review_text(m) == "DAWNLINE REVIEW\n\nCompleted tasks: "@
            + decimal(count_where(m.tasks, |t: Task| t.status == TaskStatus::Done))
            + "\nOpen priority tasks: "@
            + decimal(count_where(m.tasks, |t: Task| t.status == TaskStatus::Open && t.priority))
            + "\nCompleted blocks: "@
            + decimal(count_where(m.blocks, |b: Block| b.status == BlockStatus::Done))
            + "\nDropped tasks: "@
            + decimal(count_where(m.tasks, |t: Task| t.status == TaskStatus::Dropped))
            + "\nFocus time: "@ + decimal(m.focus_minutes as nat) + "m\n"@,
{
    let done = |t: Task| t.status == TaskStatus::Done;
    let open_priority = |t: Task| t.status == TaskStatus::Open && t.priority;
    let block_done = |b: Block| b.status == BlockStatus::Done;
    let dropped = |t: Task| t.status == TaskStatus::Dropped;
    assert(crate::models::has_status(TaskStatus::Done) =~= done);
    assert(crate::models::is_open_priority() =~= open_priority);
    assert(crate::models::block_is_done() =~= block_done);
    assert(crate::models::has_status(TaskStatus::Dropped) =~= dropped);
    lemma_filter_counts(m.tasks, done);
    lemma_filter_counts(m.tasks, open_priority);
    lemma_filter_counts(m.blocks, block_done);
    lemma_filter_counts(m.tasks, dropped);
}

/// The timing is a loose label that reads `now`, up to ASCII case.
pub open spec fn is_now(t: BlockTiming) -> bool {
    t matches BlockTiming::Loose { label } && same_ignoring_ascii_case(label@, "now"@)
}

/// The timing is a loose label that reads `next`, up to ASCII case.
pub open spec fn is_next(t: BlockTiming) -> bool {
    t matches BlockTiming::Loose { label } && same_ignoring_ascii_case(label@, "next"@)
}

/// The timing is a clock time: its start reads `H:MM` or `HH:MM`.
pub open spec fn at_clock_time(t: BlockTiming) -> bool {
    t matches BlockTiming::Exact { start, .. } && spec_looks_like_time(start@)
}

/// The minute of the day at which a block at a clock time starts.
pub open spec fn start_minute(t: BlockTiming) -> nat {
    match t {
        BlockTiming::Exact { start, .. } => spec_time_minutes(start@),
        BlockTiming::Loose { .. } => 0,
    }
}

/// The timeline, read pairwise: `now` blocks come first, then `next` blocks,
/// then the blocks at a clock time, earlier minutes of the day first, then
/// blocks with a start that is not a clock time, then the other loose labels.
/// Blocks that tie keep the order in which they were added.
pub proof fn law_timeline_by_start_minute(blocks: Seq<Block>)
    requires
        blocks.len() <= usize::MAX,
    ensures
        forall|k: int, l: int| #![trigger timeline_order(blocks)[k], timeline_order(blocks)[l]]
            0 <= k < l < timeline_order(blocks).len() ==> ({
                let i = timeline_order(blocks)[k] as int;
                let j = timeline_order(blocks)[l] as int;
                let a = blocks[i].timing;
                let b = blocks[j].timing;
                &&& is_now(b) ==> is_now(a) && i < j
                &&& is_next(b) ==> (is_now(a) || (is_next(a) && i < j))
                &&& at_clock_time(b) ==> (is_now(a) || is_next(a) || (at_clock_time(a) && start_minute(a) <= start_minute(b)))
                &&& at_clock_time(a) && at_clock_time(b) && start_minute(a) == start_minute(b) ==> i < j
                &&& b is Exact ==> !(a is Loose) || is_now(a) || is_next(a)
                &&& b is Exact && !at_clock_time(b) && a is Exact && !at_clock_time(a) ==> i < j
                &&& b is Loose && !is_now(b) && !is_next(b) && a is Loose && !is_now(a) && !is_next(a) ==> i < j
            }),
{
    let keys = block_keys(blocks);
    lemma_timeline_len(blocks);
    crate::order::lemma_precedes_order(keys);
    let order = timeline_order(blocks);
    assert forall|k: int, l: int| #![trigger order[k], order[l]] 0 <= k < l < order.len() implies ({
        let i = order[k] as int;
        let j = order[l] as int;
        let a = blocks[i].timing;
        let b = blocks[j].timing;
        &&& is_now(b) ==> is_now(a) && i < j
        &&& is_next(b) ==> (is_now(a) || (is_next(a) && i < j))
        &&& at_clock_time(b) ==> (is_now(a) || is_next(a) || (at_clock_time(a) && start_minute(a) <= start_minute(b)))
        &&& at_clock_time(a) && at_clock_time(b) && start_minute(a) == start_minute(b) ==> i < j
        &&& b is Exact ==> !(a is Loose) || is_now(a) || is_next(a)
        &&& b is Exact && !at_clock_time(b) && a is Exact && !at_clock_time(a) ==> i < j
        &&& b is Loose && !is_now(b) && !is_next(b) && a is Loose && !is_now(a) && !is_next(a) ==> i < j
    }) by {
        let i = order[k] as int;
        let j = order[l] as int;
        assert(precedes(keys, i, j));
        let a = blocks[i].timing;
        let b = blocks[j].timing;
        if let BlockTiming::Exact { start, .. } = a {
            if spec_looks_like_time(start@) {
                lemma_time_minutes_small(start@);
            }
        }
        if let BlockTiming::Exact { start, .. } = b {
            if spec_looks_like_time(start@) {
                lemma_time_minutes_small(start@);
            }
        }
    }
}

/// The title of the task at row `k` of the task list, in lower case.
pub open spec fn listed_title(tasks: Seq<Task>, k: int) -> Seq<char> {
    lowercase(tasks[active_order(tasks)[k] as int].title@)
}

/// A task reference names a row of the task list as it is shown (open tasks,
/// priority first): a number counts rows from one (`0` is the first row);
/// other text names the first row, from the top, whose title contains it,
/// both in lower case. With no such row, it names nothing.
pub proof fn law_task_reference(day: DayModel, task_ref: Seq<char>)
    ensures
        ({
            let order = active_order(day.tasks);
            let r = trim(task_ref);
            match parse_usize(r) {
                Some(n) => {
                    let k = if n == 0 { 0 } else { n - 1 };
                    task_for_reference(day, task_ref) == if k < order.len() {
                        Some(day.tasks[order[k] as int].id)
                    } else {
                        None
                    }
                },
                None => {
                    &&& task_for_reference(day, task_ref) is Some
                        <==> exists|k: int| 0 <= k < order.len() && occurs_in(#[trigger] listed_title(day.tasks, k), lowercase(r))
                    &&& forall|k: int| 0 <= k < order.len() && occurs_in(#[trigger] listed_title(day.tasks, k), lowercase(r))
                        && (forall|q: int| 0 <= q < k ==> !occurs_in(#[trigger] listed_title(day.tasks, q), lowercase(r)))
                        ==> task_for_reference(day, task_ref) == Some(day.tasks[order[k] as int].id)
                },
            }
        }),
{
    let order = active_order(day.tasks);
    let r = trim(task_ref);
    let tasks = crate::store::listed_tasks(day);
    let hays = tasks.map_values(|t: Task| lowercase(t.title@));
    let needle = lowercase(r);
    let p = |h: Seq<char>| occurs_in(h, needle);
    lemma_first_index(hays, p);
    assert(hays.len() == order.len());
    assert forall|k: int| 0 <= k < order.len() implies #[trigger] listed_title(day.tasks, k) == hays[k] by {}
    if parse_usize(r) is None {
        match first_index(hays, p) {
            Some(f) => {
                assert(occurs_in(listed_title(day.tasks, f), needle));
                assert forall|k: int| 0 <= k < order.len() && occurs_in(#[trigger] listed_title(day.tasks, k), needle)
                    && (forall|q: int| 0 <= q < k ==> !occurs_in(#[trigger] listed_title(day.tasks, q), needle))
                    implies task_for_reference(day, task_ref) == Some(day.tasks[order[k] as int].id) by {
                    if f < k {
                        assert(!occurs_in(listed_title(day.tasks, f), needle));
                    } else if k < f {
                        assert(!p(hays[k]));
                    }
                }
            },
            None => {
                assert forall|k: int| 0 <= k < order.len() implies !occurs_in(#[trigger] listed_title(day.tasks, k), needle) by {
                    assert(!p(hays[k]));
                }
            },
        }
    }
}

/// The screen with the command line closed and emptied.
pub open spec fn line_closed(v: AppView) -> AppView {
    AppView { command_mode: false, buffer: seq![], ..v }
}

/// `finish` typed on the command line and submitted does what the finish
/// action does from there, with the line closed: from execute it finishes the
/// running block and the current session and moves to review; from review it
/// finishes the day; from the plan it only hints at the next step.
pub proof fn law_finish_command(v: AppView, a: Action)
    requires
        v.command_mode,
        trim(v.buffer) == "finish"@,
        a == Action::Enter || a == Action::SubmitCommand,
    ensures
        v.screen == CurrentScreen::Execute ==> {
            &&& spec_update(v, a) == spec_update(line_closed(v), Action::FinishSession)
            &&& spec_update(v, a).0.screen == CurrentScreen::Review
            &&& spec_update(v, a).0.pane == ActivePane::CarryForward
            &&& !spec_update(v, a).0.command_mode
            &&& v.day.current_session_id matches Some(s) ==> spec_update(v, a).1 matches Some(Outcome::AppendAll(all))
                && all.last() == Planned::Kind(EventKind::SessionFinished { session_id: s })
        },
        v.screen == CurrentScreen::Review ==> {
            &&& spec_update(v, a) == spec_update(line_closed(v), Action::FinishDay)
            &&& spec_update(v, a).1 == Some(Outcome::Append(Planned::Kind(EventKind::DayFinished)))
            &&& spec_update(v, a).0.screen == CurrentScreen::Review
        },
        v.screen == CurrentScreen::Plan ==> spec_update(v, a).0.screen == CurrentScreen::Plan && spec_update(v, a).1 is None,
{
    let input = trim(v.buffer);
    reveal_strlit("finish");
    reveal_strlit("execute");
    reveal_strlit("start");
    reveal_strlit("review");
    reveal_strlit("new session");
    reveal_strlit("session new");
    reveal_strlit("focus");
    reveal_strlit("focus ");
    assert(input != "execute"@ && input != "start"@ && input != "review"@);
    assert(input != "new session"@ && input != "session new"@);
    assert(spec_focus_minutes(input) is None) by {
        assert(input[0] == 'f' && input[5] == 'h');
        assert(!is_space(input[0]) && !is_space(input[input.len() - 1]));
        assert(trim_start(input) == input);
        assert(trim_end(input) == input);
        assert(trim(input) == input);
        assert(trim_start_char(input, ':') == input);
        assert(input != "focus"@);
        assert(input[1] != "focus "@[1]);
    }
}

/// Adding a task appends exactly one open task made from the event, created
/// at the event's time and not closed; adding a note appends one note; starting
/// a session appends one open session and makes it the current one. Nothing
/// else of the day's lists changes.
pub proof fn law_added_items(m: DayModel, e: Event)
    ensures
        e.kind matches EventKind::TaskAdded { task_id, title, priority } ==> {
            let after = spec_apply(m, e).tasks;
            &&& after.len() == m.tasks.len() + 1
            &&& forall|i: int| 0 <= i < m.tasks.len() ==> #[trigger] after[i] == m.tasks[i]
            &&& after.last().id == task_id && after.last().title == title && after.last().priority == priority
            &&& after.last().status == TaskStatus::Open
            &&& after.last().created_at == e.at && after.last().closed_at is None
            &&& spec_apply(m, e).blocks == m.blocks
        },
        e.kind matches EventKind::NoteAdded { note_id, text } ==> {
            let after = spec_apply(m, e).notes;
            &&& after.len() == m.notes.len() + 1
            &&& forall|i: int| 0 <= i < m.notes.len() ==> #[trigger] after[i] == m.notes[i]
            &&& after.last().id == note_id && after.last().text == text && after.last().created_at == e.at
            &&& spec_apply(m, e).tasks == m.tasks
        },
        e.kind matches EventKind::SessionStarted { session_id } ==> {
            let after = spec_apply(m, e).sessions;
            &&& after.len() == m.sessions.len() + 1
            &&& forall|i: int| 0 <= i < m.sessions.len() ==> #[trigger] after[i] == m.sessions[i]
            &&& after.last().id == session_id && after.last().started_at == e.at && after.last().finished_at is None
            &&& spec_apply(m, e).current_session_id == Some(session_id)
        },
{
}

/// Outside the command line, `f` finishes what the screen is about: in
/// execute it is the finish-session action, in review the finish-day action,
/// and in the plan it only hints at the next step.
pub proof fn law_finish_key(v: AppView)
    requires
        !v.command_mode,
    ensures
        v.screen == CurrentScreen::Execute ==> spec_update(v, Action::Char('f')) == spec_update(v, Action::FinishSession),
        v.screen == CurrentScreen::Review ==> spec_update(v, Action::Char('f')) == spec_update(v, Action::FinishDay),
        v.screen == CurrentScreen::Plan ==> spec_update(v, Action::Char('f')).0.screen == CurrentScreen::Plan
            && spec_update(v, Action::Char('f')).1 is None,
{
}

/// Finishing the session from execute moves to review and records, in this
/// order, the end of the running block (the first active one, if any) and the
/// end of the current session (if any); with neither, nothing is recorded.
/// Elsewhere it records nothing and stays on the screen.
pub proof fn law_finish_session(v: AppView, b: int)
    requires
        !v.command_mode,
    ensures
        v.screen != CurrentScreen::Execute ==> spec_update(v, Action::FinishSession).0.screen == v.screen
            && spec_update(v, Action::FinishSession).1 is None,
        v.screen == CurrentScreen::Execute ==> spec_update(v, Action::FinishSession).0.screen == CurrentScreen::Review,
        v.screen == CurrentScreen::Execute && (forall|i: int| 0 <= i < v.day.blocks.len() ==> #[trigger] v.day.blocks[i].status != BlockStatus::Active)
            ==> spec_update(v, Action::FinishSession).1 == match v.day.current_session_id {
                Some(s) => Some(Outcome::AppendAll(seq![Planned::Kind(EventKind::SessionFinished { session_id: s })])),
                None => None::<Outcome>,
            },
        v.screen == CurrentScreen::Execute && 0 <= b < v.day.blocks.len() && v.day.blocks[b].status == BlockStatus::Active
            && (forall|i: int| 0 <= i < b ==> #[trigger] v.day.blocks[i].status != BlockStatus::Active)
            ==> spec_update(v, Action::FinishSession).1 == Some(Outcome::AppendAll(match v.day.current_session_id {
                Some(s) => seq![
                    Planned::Kind(EventKind::BlockFinished { block_id: v.day.blocks[b].id }),
                    Planned::Kind(EventKind::SessionFinished { session_id: s }),
                ],
                None => seq![Planned::Kind(EventKind::BlockFinished { block_id: v.day.blocks[b].id })],
            })),
{
    lemma_first_index(v.day.blocks, block_is_active());
    if 0 <= b < v.day.blocks.len() && v.day.blocks[b].status == BlockStatus::Active
        && (forall|i: int| 0 <= i < b ==> #[trigger] v.day.blocks[i].status != BlockStatus::Active) {
        let f = first_index(v.day.blocks, block_is_active())->0;
        if f < b {
            assert(v.day.blocks[f].status != BlockStatus::Active);
        } else if b < f {
            assert(!block_is_active()(v.day.blocks[b]));
        }
        let fin = Planned::Kind(EventKind::BlockFinished { block_id: v.day.blocks[b].id });
        if let Some(s) = v.day.current_session_id {
            let sf = Planned::Kind(EventKind::SessionFinished { session_id: s });
            assert(seq![fin].push(sf) =~= seq![fin, sf]);
        }
    }
    if forall|i: int| 0 <= i < v.day.blocks.len() ==> #[trigger] v.day.blocks[i].status != BlockStatus::Active {
        if first_index(v.day.blocks, block_is_active()) is Some {
            let f = first_index(v.day.blocks, block_is_active())->0;
            assert(v.day.blocks[f].status != BlockStatus::Active);
        }
    }
}

} // verus!
