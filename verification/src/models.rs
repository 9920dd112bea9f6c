//! The day: its events, and the state that replaying them builds.
use vstd::prelude::*;

use crate::clock::{fresh_id, now_stamp, today};
use crate::order::{is_stable_order, stable_order, stable_order_of};
use crate::text::{chars_of, decimal, decimal_chars, extend_chars, extend_str, owned, string_of};

verus! {

/// Where a task stands.
#[derive(Debug, Clone, Copy, PartialEq, Eq, Structural)]
pub enum TaskStatus {
    Open,
    Done,
    Dropped,
    Removed,
}

/// Where a block stands.
#[derive(Debug, Clone, Copy, PartialEq, Eq, Structural)]
pub enum BlockStatus {
    Planned,
    Active,
    Done,
}

/// When a block is meant to happen: at a clock time, or by a loose label.
#[derive(Debug, PartialEq, Eq)]
pub enum BlockTiming {
    Exact { start: String, end: Option<String> },
    Loose { label: String },
}

/// A point in time as chrono's `DateTime<Utc>` holds it: whole seconds since
/// the Unix epoch, and the nanoseconds past that second (past 999_999_999
/// only within a leap second).
#[derive(Debug, Clone, Copy, PartialEq, Eq, Structural)]
pub struct Timestamp {
    pub secs: i64,
    pub nanos: u32,
}

/// The key by which timestamps are ordered: by seconds, then by nanoseconds,
/// as chrono orders them (`nanos` is below 2^32, so the seconds dominate).
pub open spec fn stamp_key(t: Timestamp) -> i128 {
    (t.secs * 0x1_0000_0000 + t.nanos) as i128
}

/// Timestamp `a` is not after `b`, in chrono's order.
pub open spec fn stamp_not_after(a: Timestamp, b: Timestamp) -> bool {
    a.secs < b.secs || (a.secs == b.secs && a.nanos <= b.nanos)
}

/// Comparing keys is comparing timestamps.
pub proof fn lemma_stamp_key_orders(a: Timestamp, b: Timestamp)
    ensures
        stamp_key(a) <= stamp_key(b) <==> stamp_not_after(a, b),
        stamp_key(a) == stamp_key(b) <==> a == b,
{
    assert(stamp_key(a) <= stamp_key(b) <==> stamp_not_after(a, b)) by (nonlinear_arith)
        requires
            0 <= a.nanos < 0x1_0000_0000,
            0 <= b.nanos < 0x1_0000_0000,
            stamp_key(a) == a.secs * 0x1_0000_0000 + a.nanos,
            stamp_key(b) == b.secs * 0x1_0000_0000 + b.nanos;
    assert(stamp_key(a) == stamp_key(b) ==> a.secs == b.secs && a.nanos == b.nanos) by (nonlinear_arith)
        requires
            0 <= a.nanos < 0x1_0000_0000,
            0 <= b.nanos < 0x1_0000_0000,
            stamp_key(a) == a.secs * 0x1_0000_0000 + a.nanos,
            stamp_key(b) == b.secs * 0x1_0000_0000 + b.nanos;
}

impl Timestamp {
    /// The ordering key of this timestamp.
    pub fn order_key(&self) -> (k: i128)
        ensures
            k == stamp_key(*self),
    {
        (self.secs as i128) * 0x1_0000_0000 + (self.nanos as i128)
    }
}

/// A task of the day.
#[derive(Debug, PartialEq, Eq)]
pub struct Task {
    pub id: u128,
    pub title: String,
    pub priority: bool,
    pub status: TaskStatus,
    pub created_at: Timestamp,
    pub closed_at: Option<Timestamp>,
}

/// A block of focused time on the day's timeline.
#[derive(Debug, PartialEq, Eq)]
pub struct Block {
    pub id: u128,
    pub title: String,
    pub intent: Option<String>,
    pub timing: BlockTiming,
    pub status: BlockStatus,
    pub created_at: Timestamp,
    pub started_at: Option<Timestamp>,
    pub finished_at: Option<Timestamp>,
}

/// A note of the day.
#[derive(Debug, PartialEq, Eq)]
pub struct Note {
    pub id: u128,
    pub text: String,
    pub created_at: Timestamp,
}

/// A working session.
#[derive(Debug, Clone, Copy, PartialEq, Eq)]
pub struct Session {
    pub id: u128,
    pub started_at: Timestamp,
    pub finished_at: Option<Timestamp>,
}

/// One entry of the append-only log.
#[derive(Debug, PartialEq, Eq)]
pub struct Event {
    pub id: u128,
    pub at: Timestamp,
    pub kind: EventKind,
}

/// What an event records.
#[derive(Debug, PartialEq, Eq)]
pub enum EventKind {
    SessionStarted { session_id: u128 },
    SessionFinished { session_id: u128 },
    DayFinished,
    BlockAdded { block_id: u128, title: String, intent: Option<String>, timing: BlockTiming },
    BlockStarted { block_id: u128 },
    BlockFinished { block_id: u128 },
    TaskAdded { task_id: u128, title: String, priority: bool },
    TaskCompleted { task_id: u128 },
    TaskDropped { task_id: u128 },
    TaskRemoved { task_id: u128 },
    TaskPriorityChanged { task_id: u128, priority: bool },
    NoteAdded { note_id: u128, text: String },
    FocusLogged { minutes: u32 },
}

/// The state of the day, as replayed from its events. `date` is the local
/// date as a day count from the common era.
#[derive(Debug, PartialEq, Eq)]
pub struct DayState {
    pub date: i32,
    pub day_finished: bool,
    pub current_session_id: Option<u128>,
    pub sessions: Vec<Session>,
    pub blocks: Vec<Block>,
    pub tasks: Vec<Task>,
    pub notes: Vec<Note>,
    pub focus_minutes: u32,
    pub history: Vec<Event>,
}

/// The mathematical value of a `DayState`.
#[verifier::ext_equal]
pub struct DayModel {
    pub date: i32,
    pub day_finished: bool,
    pub current_session_id: Option<u128>,
    pub sessions: Seq<Session>,
    pub blocks: Seq<Block>,
    pub tasks: Seq<Task>,
    pub notes: Seq<Note>,
    pub focus_minutes: u32,
    pub history: Seq<Event>,
}

impl View for DayState {
    type V = DayModel;

    open spec fn view(&self) -> DayModel {
        DayModel {
            date: self.date,
            day_finished: self.day_finished,
            current_session_id: self.current_session_id,
            sessions: self.sessions@,
            blocks: self.blocks@,
            tasks: self.tasks@,
            notes: self.notes@,
            focus_minutes: self.focus_minutes,
            history: self.history@,
        }
    }
}

// ---------------------------------------------------------------------------
// Copies
// ---------------------------------------------------------------------------

/// An equal copy of an optional text.
pub fn copy_text_opt(t: &Option<String>) -> (r: Option<String>)
    ensures
        r == *t,
{
    match t {
        Some(s) => Some(s.clone()),
        None => None,
    }
}

impl Clone for BlockTiming {
    fn clone(&self) -> (r: Self)
        ensures
            r == *self,
    {
        match self {
            BlockTiming::Exact { start, end } => BlockTiming::Exact { start: start.clone(), end: copy_text_opt(end) },
            BlockTiming::Loose { label } => BlockTiming::Loose { label: label.clone() },
        }
    }
}

impl Clone for EventKind {
    fn clone(&self) -> (r: Self)
        ensures
            r == *self,
    {
        match self {
            EventKind::SessionStarted { session_id } => EventKind::SessionStarted { session_id: *session_id },
            EventKind::SessionFinished { session_id } => EventKind::SessionFinished { session_id: *session_id },
            EventKind::DayFinished => EventKind::DayFinished,
            EventKind::BlockAdded { block_id, title, intent, timing } => EventKind::BlockAdded {
                block_id: *block_id,
                title: title.clone(),
                intent: copy_text_opt(intent),
                timing: timing.clone(),
            },
            EventKind::BlockStarted { block_id } => EventKind::BlockStarted { block_id: *block_id },
            EventKind::BlockFinished { block_id } => EventKind::BlockFinished { block_id: *block_id },
            EventKind::TaskAdded { task_id, title, priority } => EventKind::TaskAdded {
                task_id: *task_id,
                title: title.clone(),
                priority: *priority,
            },
            EventKind::TaskCompleted { task_id } => EventKind::TaskCompleted { task_id: *task_id },
            EventKind::TaskDropped { task_id } => EventKind::TaskDropped { task_id: *task_id },
            EventKind::TaskRemoved { task_id } => EventKind::TaskRemoved { task_id: *task_id },
            EventKind::TaskPriorityChanged { task_id, priority } => EventKind::TaskPriorityChanged {
                task_id: *task_id,
                priority: *priority,
            },
            EventKind::NoteAdded { note_id, text } => EventKind::NoteAdded { note_id: *note_id, text: text.clone() },
            EventKind::FocusLogged { minutes } => EventKind::FocusLogged { minutes: *minutes },
        }
    }
}

impl Clone for Event {
    fn clone(&self) -> (r: Self)
        ensures
            r == *self,
    {
        Event { id: self.id, at: self.at, kind: self.kind.clone() }
    }
}

// ---------------------------------------------------------------------------
// Labels
// ---------------------------------------------------------------------------

impl TaskStatus {
    /// The word for this status.
    pub open spec fn spec_label(self) -> Seq<char> {
        match self {
            TaskStatus::Open => "open"@,
            TaskStatus::Done => "done"@,
            TaskStatus::Dropped => "dropped"@,
            TaskStatus::Removed => "removed"@,
        }
    }

    /// The word for this status, as shown to the user.
    pub fn label(&self) -> (s: String)
        ensures
            s@ == self.spec_label(),
    {
        match self {
            TaskStatus::Open => owned("open"),
            TaskStatus::Done => owned("done"),
            TaskStatus::Dropped => owned("dropped"),
            TaskStatus::Removed => owned("removed"),
        }
    }
}

impl BlockStatus {
    /// The word for this status.
    pub open spec fn spec_label(self) -> Seq<char> {
        match self {
            BlockStatus::Planned => "planned"@,
            BlockStatus::Active => "active"@,
            BlockStatus::Done => "done"@,
        }
    }

    /// The word for this status, as shown to the user.
    pub fn label(&self) -> (s: String)
        ensures
            s@ == self.spec_label(),
    {
        match self {
            BlockStatus::Planned => owned("planned"),
            BlockStatus::Active => owned("active"),
            BlockStatus::Done => owned("done"),
        }
    }
}

impl BlockTiming {
    /// The timing as shown: `start-end`, `start`, or the label.
    pub open spec fn spec_label(self) -> Seq<char> {
        match self {
            BlockTiming::Exact { start, end } => match end {
                Some(e) => start@ + "-"@ + e@,
                None => start@,
            },
            BlockTiming::Loose { label } => label@,
        }
    }

    /// The timing as shown to the user.
    pub fn label(&self) -> (s: String)
        ensures
            s@ == self.spec_label(),
    {
        match self {
            BlockTiming::Exact { start, end } => match end {
                Some(e) => {
                    let mut cs = chars_of(start.as_str());
                    extend_str(&mut cs, "-");
                    extend_str(&mut cs, e.as_str());
                    string_of(cs.as_slice())
                },
                None => start.clone(),
            },
            BlockTiming::Loose { label } => label.clone(),
        }
    }
}

// ---------------------------------------------------------------------------
// First match in a list
// ---------------------------------------------------------------------------

/// The first position of `s` whose item satisfies `p`.
pub open spec fn first_index<T>(s: Seq<T>, p: spec_fn(T) -> bool) -> Option<int> {
    if exists|i: int| 0 <= i < s.len() && p(s[i]) {
        Some(choose|i: int| 0 <= i < s.len() && p(s[i]) && forall|j: int| 0 <= j < i ==> !p(s[j]))
    } else {
        None
    }
}

/// A position that satisfies `p`, with none before it, is the first one.
pub proof fn lemma_first_index_is<T>(s: Seq<T>, p: spec_fn(T) -> bool, i: int)
    requires
        0 <= i < s.len(),
        p(s[i]),
        forall|j: int| 0 <= j < i ==> !p(s[j]),
    ensures
        first_index(s, p) == Some(i),
{
    let c = choose|k: int| 0 <= k < s.len() && p(s[k]) && forall|j: int| 0 <= j < k ==> !p(s[j]);
    assert(0 <= c < s.len() && p(s[c]) && forall|j: int| 0 <= j < c ==> !p(s[j]));
    if c < i {
        assert(!p(s[c]));
    }
    if c > i {
        assert(!p(s[i]));
    }
}

/// Without a satisfying item there is no first one.
pub proof fn lemma_first_index_none<T>(s: Seq<T>, p: spec_fn(T) -> bool)
    requires
        forall|j: int| 0 <= j < s.len() ==> !p(s[j]),
    ensures
        first_index(s, p) is None,
{
}

/// What `first_index` gives: the first satisfying position, or none at all.
pub proof fn lemma_first_index<T>(s: Seq<T>, p: spec_fn(T) -> bool)
    ensures
        match first_index(s, p) {
            Some(i) => 0 <= i < s.len() && p(s[i]) && forall|j: int| 0 <= j < i ==> !p(s[j]),
            None => forall|j: int| 0 <= j < s.len() ==> !p(s[j]),
        },
{
    lemma_first_index_scan(s, p, 0);
}

proof fn lemma_first_index_scan<T>(s: Seq<T>, p: spec_fn(T) -> bool, k: int)
    requires
        0 <= k <= s.len(),
        forall|j: int| 0 <= j < k ==> !p(s[j]),
    ensures
        match first_index(s, p) {
            Some(i) => 0 <= i < s.len() && p(s[i]) && forall|j: int| 0 <= j < i ==> !p(s[j]),
            None => forall|j: int| 0 <= j < s.len() ==> !p(s[j]),
        },
    decreases s.len() - k,
{
    if k == s.len() {
        lemma_first_index_none(s, p);
    } else if p(s[k]) {
        lemma_first_index_is(s, p, k);
    } else {
        lemma_first_index_scan(s, p, k + 1);
    }
}

/// The item has the given session id.
pub open spec fn session_has_id(id: u128) -> spec_fn(Session) -> bool {
    |s: Session| s.id == id
}

/// The item has the given block id.
pub open spec fn block_has_id(id: u128) -> spec_fn(Block) -> bool {
    |b: Block| b.id == id
}

/// The item has the given task id.
pub open spec fn task_has_id(id: u128) -> spec_fn(Task) -> bool {
    |t: Task| t.id == id
}

/// The block is the active one.
pub open spec fn block_is_active() -> spec_fn(Block) -> bool {
    |b: Block| b.status == BlockStatus::Active
}

/// The block is still planned.
pub open spec fn block_is_planned() -> spec_fn(Block) -> bool {
    |b: Block| b.status == BlockStatus::Planned
}

// ---------------------------------------------------------------------------
// Applying one event
// ---------------------------------------------------------------------------

/// A day with nothing in it yet.
pub open spec fn empty_day(date: i32) -> DayModel {
    DayModel {
        date,
        day_finished: false,
        current_session_id: None,
        sessions: seq![],
        blocks: seq![],
        tasks: seq![],
        notes: seq![],
        focus_minutes: 0,
        history: seq![],
    }
}

/// The session, closed at `at` if it was still open.
pub open spec fn session_closed_at(s: Session, at: Timestamp) -> Session {
    if s.finished_at is None {
        Session { id: s.id, started_at: s.started_at, finished_at: Some(at) }
    } else {
        s
    }
}

/// The block after the block `id` was started at `at`: that block becomes
/// active; any other active block goes back to planned.
pub open spec fn block_after_start(b: Block, id: u128, at: Timestamp) -> Block {
    if b.id == id {
        Block {
            id: b.id,
            title: b.title,
            intent: b.intent,
            timing: b.timing,
            status: BlockStatus::Active,
            created_at: b.created_at,
            started_at: Some(at),
            finished_at: b.finished_at,
        }
    } else if b.status == BlockStatus::Active {
        Block {
            id: b.id,
            title: b.title,
            intent: b.intent,
            timing: b.timing,
            status: BlockStatus::Planned,
            created_at: b.created_at,
            started_at: b.started_at,
            finished_at: b.finished_at,
        }
    } else {
        b
    }
}

/// The block, finished at `at`.
pub open spec fn block_finished_at(b: Block, at: Timestamp) -> Block {
    Block {
        id: b.id,
        title: b.title,
        intent: b.intent,
        timing: b.timing,
        status: BlockStatus::Done,
        created_at: b.created_at,
        started_at: b.started_at,
        finished_at: Some(at),
    }
}

/// The task, closed with `status` at `at`.
pub open spec fn task_closed(t: Task, status: TaskStatus, at: Timestamp) -> Task {
    Task {
        id: t.id,
        title: t.title,
        priority: t.priority,
        status,
        created_at: t.created_at,
        closed_at: Some(at),
    }
}

/// The task with a new priority.
pub open spec fn task_with_priority(t: Task, priority: bool) -> Task {
    Task {
        id: t.id,
        title: t.title,
        priority,
        status: t.status,
        created_at: t.created_at,
        closed_at: t.closed_at,
    }
}

/// The tasks after the first task with `id` was closed with `status`.
pub open spec fn tasks_after_close(tasks: Seq<Task>, id: u128, status: TaskStatus, at: Timestamp) -> Seq<Task> {
    match first_index(tasks, task_has_id(id)) {
        Some(i) => tasks.update(i, task_closed(tasks[i], status, at)),
        None => tasks,
    }
}

/// The state after one event; every event also joins the history.
pub open spec fn spec_apply(m: DayModel, e: Event) -> DayModel {
    let at = e.at;
    let m2 = match e.kind {
        EventKind::SessionStarted { session_id } => DayModel {
            current_session_id: Some(session_id),
            sessions: m.sessions.push(Session { id: session_id, started_at: at, finished_at: None }),
            ..m
        },
        EventKind::SessionFinished { session_id } => DayModel {
            sessions: match first_index(m.sessions, session_has_id(session_id)) {
                Some(i) => m.sessions.update(
                    i,
                    Session { id: m.sessions[i].id, started_at: m.sessions[i].started_at, finished_at: Some(at) },
                ),
                None => m.sessions,
            },
            current_session_id: if m.current_session_id == Some(session_id) {
                None
            } else {
                m.current_session_id
            },
            ..m
        },
        EventKind::DayFinished => DayModel {
            day_finished: true,
            sessions: m.sessions.map_values(|s: Session| session_closed_at(s, at)),
            current_session_id: None,
            ..m
        },
        EventKind::BlockAdded { block_id, title, intent, timing } => DayModel {
            blocks: m.blocks.push(
                Block {
                    id: block_id,
                    title,
                    intent,
                    timing,
                    status: BlockStatus::Planned,
                    created_at: at,
                    started_at: None,
                    finished_at: None,
                },
            ),
            ..m
        },
        EventKind::BlockStarted { block_id } => DayModel {
            blocks: m.blocks.map_values(|b: Block| block_after_start(b, block_id, at)),
            ..m
        },
        EventKind::BlockFinished { block_id } => DayModel {
            blocks: match first_index(m.blocks, block_has_id(block_id)) {
                Some(i) => m.blocks.update(i, block_finished_at(m.blocks[i], at)),
                None => m.blocks,
            },
            ..m
        },
        EventKind::TaskAdded { task_id, title, priority } => DayModel {
            tasks: m.tasks.push(
                Task { id: task_id, title, priority, status: TaskStatus::Open, created_at: at, closed_at: None },
            ),
            ..m
        },
        EventKind::TaskCompleted { task_id } => DayModel {
            tasks: tasks_after_close(m.tasks, task_id, TaskStatus::Done, at),
            ..m
        },
        EventKind::TaskDropped { task_id } => DayModel {
            tasks: tasks_after_close(m.tasks, task_id, TaskStatus::Dropped, at),
            ..m
        },
        EventKind::TaskRemoved { task_id } => DayModel {
            tasks: tasks_after_close(m.tasks, task_id, TaskStatus::Removed, at),
            ..m
        },
        EventKind::TaskPriorityChanged { task_id, priority } => DayModel {
            tasks: match first_index(m.tasks, task_has_id(task_id)) {
                Some(i) => m.tasks.update(i, task_with_priority(m.tasks[i], priority)),
                None => m.tasks,
            },
            ..m
        },
        EventKind::NoteAdded { note_id, text } => DayModel {
            notes: m.notes.push(Note { id: note_id, text, created_at: at }),
            ..m
        },
        EventKind::FocusLogged { minutes } => DayModel {
            focus_minutes: (m.focus_minutes + minutes) as u32,
            ..m
        },
    };
    DayModel { history: m2.history.push(e), ..m2 }
}

/// The event does not carry the focus total past `u32::MAX`.
pub open spec fn focus_fits(m: DayModel, e: Event) -> bool {
    match e.kind {
        EventKind::FocusLogged { minutes } => m.focus_minutes + minutes <= u32::MAX,
        _ => true,
    }
}

/// The minutes of focus that one event logs.
pub open spec fn event_focus(e: Event) -> nat {
    match e.kind {
        EventKind::FocusLogged { minutes } => minutes as nat,
        _ => 0,
    }
}

/// The minutes of focus that the events log.
pub open spec fn focus_total(events: Seq<Event>) -> nat
    decreases events.len(),
{
    if events.len() == 0 {
        0
    } else {
        focus_total(events.drop_last()) + event_focus(events.last())
    }
}

/// Applying an event adds its focus minutes, when they fit.
pub proof fn lemma_apply_focus(m: DayModel, e: Event)
    requires
        m.focus_minutes + event_focus(e) <= u32::MAX,
    ensures
        spec_apply(m, e).focus_minutes == m.focus_minutes + event_focus(e),
{
}

/// The state that replaying the events on an empty day of `date` builds.
pub open spec fn spec_replay(date: i32, events: Seq<Event>) -> DayModel
    decreases events.len(),
{
    if events.len() == 0 {
        empty_day(date)
    } else {
        spec_apply(spec_replay(date, events.drop_last()), events.last())
    }
}

/// The focus total of a prefix is at most that of the whole.
pub proof fn lemma_focus_total_prefix(events: Seq<Event>, k: int)
    requires
        0 <= k <= events.len(),
    ensures
        focus_total(events.take(k)) <= focus_total(events),
    decreases events.len() - k,
{
    if k < events.len() {
        lemma_focus_total_prefix(events, k + 1);
        assert(events.take(k + 1).drop_last() =~= events.take(k));
    } else {
        assert(events.take(k) =~= events);
    }
}

/// Replaying logs exactly the focus that the events carry, when it fits.
pub proof fn lemma_replay_focus(date: i32, events: Seq<Event>)
    requires
        focus_total(events) <= u32::MAX,
    ensures
        spec_replay(date, events).focus_minutes == focus_total(events),
    decreases events.len(),
{
    if events.len() > 0 {
        lemma_focus_total_prefix(events, events.len() - 1);
        assert(events.take(events.len() - 1) =~= events.drop_last());
        lemma_replay_focus(date, events.drop_last());
        lemma_apply_focus(spec_replay(date, events.drop_last()), events.last());
    }
}

// ---------------------------------------------------------------------------
// Events to be made
// ---------------------------------------------------------------------------

/// The characters of an optional text.
pub open spec fn text_opt_view(t: Option<String>) -> Option<Seq<char>> {
    match t {
        Some(s) => Some(s@),
        None => None,
    }
}

/// The timing that a new block is to have.
pub enum TimingPlan {
    Exact { start: Seq<char>, end: Option<Seq<char>> },
    Loose { label: Seq<char> },
}

/// What an event to append must record. `Kind` is exact; the others are
/// additions under a fresh id, described by their texts.
pub enum Planned {
    Kind(EventKind),
    NewSession,
    NewTask { title: Seq<char>, priority: bool },
    NewBlock { title: Seq<char>, timing: TimingPlan },
    NewNote { text: Seq<char> },
}

/// The timing is the planned one.
pub open spec fn timing_fits(t: BlockTiming, p: TimingPlan) -> bool {
    match (t, p) {
        (BlockTiming::Exact { start, end }, TimingPlan::Exact { start: ps, end: pe }) => start@ == ps && match (end, pe) {
            (Some(e), Some(x)) => e@ == x,
            (None, None) => true,
            _ => false,
        },
        (BlockTiming::Loose { label }, TimingPlan::Loose { label: pl }) => label@ == pl,
        _ => false,
    }
}

/// The event records what was planned.
pub open spec fn event_fits(e: Event, p: Planned) -> bool {
    match p {
        Planned::Kind(k) => e.kind == k,
        Planned::NewSession => e.kind is SessionStarted,
        Planned::NewTask { title, priority } => match e.kind {
            EventKind::TaskAdded { title: t, priority: q, .. } => t@ == title && q == priority,
            _ => false,
        },
        Planned::NewBlock { title, timing } => match e.kind {
            EventKind::BlockAdded { title: t, intent, timing: tm, .. } => t@ == title && intent is None && timing_fits(tm, timing),
            _ => false,
        },
        Planned::NewNote { text } => match e.kind {
            EventKind::NoteAdded { text: t, .. } => t@ == text,
            _ => false,
        },
    }
}

/// The optional event records what was planned, or there is none of either.
pub open spec fn event_opt_fits(e: Option<Event>, p: Option<Planned>) -> bool {
    match (e, p) {
        (Some(e), Some(p)) => event_fits(e, p),
        (None, None) => true,
        _ => false,
    }
}

// ---------------------------------------------------------------------------
// Derived views of the day
// ---------------------------------------------------------------------------

/// The ordering key of a task: priority tasks first, then by creation time.
pub open spec fn task_keys(tasks: Seq<Task>) -> Seq<(u64, i128)> {
    Seq::new(tasks.len(), |i: int| (if tasks[i].priority { 0u64 } else { 1u64 }, stamp_key(tasks[i].created_at)))
}

/// Which tasks are open.
pub open spec fn open_flags(tasks: Seq<Task>) -> Seq<bool> {
    Seq::new(tasks.len(), |i: int| tasks[i].status == TaskStatus::Open)
}

/// The positions of the open tasks: priority tasks first, each group in
/// creation order, ties kept in list order.
pub open spec fn active_order(tasks: Seq<Task>) -> Seq<usize> {
    stable_order_of(task_keys(tasks), open_flags(tasks))
}

/// The task has the given status.
pub open spec fn has_status(status: TaskStatus) -> spec_fn(Task) -> bool {
    |t: Task| t.status == status
}

/// The task is an open priority task.
pub open spec fn is_open_priority() -> spec_fn(Task) -> bool {
    |t: Task| t.status == TaskStatus::Open && t.priority
}

/// The block is finished.
pub open spec fn block_is_done() -> spec_fn(Block) -> bool {
    |b: Block| b.status == BlockStatus::Done
}

/// The tasks with the given status, in list order.
pub open spec fn tasks_with_status(tasks: Seq<Task>, status: TaskStatus) -> Seq<Task> {
    tasks.filter(has_status(status))
}

/// The open priority tasks, in list order.
pub open spec fn open_priority_tasks(tasks: Seq<Task>) -> Seq<Task> {
    tasks.filter(is_open_priority())
}

/// The finished blocks, in list order.
pub open spec fn done_blocks(blocks: Seq<Block>) -> Seq<Block> {
    blocks.filter(block_is_done())
}

/// The review summary of the day.
pub open spec fn spec_review_text(m: DayModel) -> Seq<char> {
    "DAWNLINE REVIEW\n\nCompleted tasks: "@ + decimal(tasks_with_status(m.tasks, TaskStatus::Done).len())
        + "\nOpen priority tasks: "@ + decimal(open_priority_tasks(m.tasks).len())
        + "\nCompleted blocks: "@ + decimal(done_blocks(m.blocks).len())
        + "\nDropped tasks: "@ + decimal(tasks_with_status(m.tasks, TaskStatus::Dropped).len())
        + "\nFocus time: "@ + decimal(m.focus_minutes as nat) + "m\n"@
}

/// The references in `r` point at `items`.
pub open spec fn refs_are<T>(r: Seq<&T>, items: Seq<T>) -> bool {
    r.len() == items.len() && forall|k: int| 0 <= k < r.len() ==> *r[k] == items[k]
}

/// The focus that the events log fits in a `u32`, as replaying them needs.
pub fn focus_total_fits(events: &[Event]) -> (b: bool)
    ensures
        b == (focus_total(events@) <= u32::MAX),
{
    let mut sum: u64 = 0;
    let mut i: usize = 0;
    assert(events@.take(0) =~= Seq::<Event>::empty());
    while i < events.len()
        invariant
            i <= events.len(),
            sum == focus_total(events@.take(i as int)),
            sum <= u32::MAX,
        decreases events.len() - i,
    {
        assert(events@.take(i as int + 1).drop_last() =~= events@.take(i as int));
        match events[i].kind {
            EventKind::FocusLogged { minutes } => {
                sum = sum + minutes as u64;
            },
            _ => {},
        }
        i = i + 1;
        if sum > 0xffff_ffff {
            proof { lemma_focus_total_prefix(events@, i as int); }
            return false;
        }
    }
    assert(events@.take(events.len() as int) =~= events@);
    true
}

impl Event {
    /// A new event of this kind, with a fresh id, stamped with the current time.
    pub fn new(kind: EventKind) -> (e: Event)
        ensures
            e.kind == kind,
    {
        Event { id: fresh_id(), at: now_stamp(), kind }
    }
}

impl Default for DayState {
    /// An empty day dated today.
    fn default() -> (s: Self)
        ensures
            s@ == empty_day(s.date),
    {
        DayState::empty(today())
    }
}

impl DayState {
    /// An empty day with the given date.
    pub fn empty(date: i32) -> (s: Self)
        ensures
            s@ == empty_day(date),
    {
        DayState {
            date,
            day_finished: false,
            current_session_id: None,
            sessions: Vec::new(),
            blocks: Vec::new(),
            tasks: Vec::new(),
            notes: Vec::new(),
            focus_minutes: 0,
            history: Vec::new(),
        }
    }

    /// The state that the events build, in order, on an empty day dated today.
    pub fn replay(events: &[Event]) -> (s: Self)
        requires
            focus_total(events@) <= u32::MAX,
        ensures
            s@ == spec_replay(s.date, events@),
    {
        let mut state = DayState::default();
        let ghost date = state.date;
        let mut i: usize = 0;
        assert(events@.take(0) =~= Seq::<Event>::empty());
        while i < events.len()
            invariant
                i <= events.len(),
                state.date == date,
                state@ == spec_replay(date, events@.take(i as int)),
                focus_total(events@) <= u32::MAX,
            decreases events.len() - i,
        {
            proof {
                lemma_focus_total_prefix(events@, i as int + 1);
                lemma_focus_total_prefix(events@, i as int);
                lemma_replay_focus(date, events@.take(i as int));
                assert(events@.take(i as int + 1).drop_last() =~= events@.take(i as int));
            }
            let e = events[i].clone();
            state.apply(e);
            i = i + 1;
        }
        assert(events@.take(events.len() as int) =~= events@);
        state
    }

    /// The open tasks as the task list shows them: priority tasks first, each
    /// group in creation order, ties in list order.
    pub fn active_tasks(&self) -> (r: Vec<&Task>)
        ensures
            is_stable_order(task_keys(self.tasks@), open_flags(self.tasks@), active_order(self.tasks@)),
            refs_are(r@, active_order(self.tasks@).map_values(|i: usize| self.tasks@[i as int])),
    {
        let n = self.tasks.len();
        let mut keys: Vec<(u64, i128)> = Vec::new();
        let mut chosen: Vec<bool> = Vec::new();
        let mut i: usize = 0;
        while i < n
            invariant
                i <= n == self.tasks.len(),
                keys.len() == i && chosen.len() == i,
                forall|k: int| 0 <= k < i ==> keys@[k] == #[trigger] task_keys(self.tasks@)[k],
                forall|k: int| 0 <= k < i ==> chosen@[k] == #[trigger] open_flags(self.tasks@)[k],
            decreases n - i,
        {
            let t = &self.tasks[i];
            keys.push((if t.priority { 0u64 } else { 1u64 }, t.created_at.order_key()));
            chosen.push(t.status == TaskStatus::Open);
            i = i + 1;
        }
        assert(keys@ =~= task_keys(self.tasks@));
        assert(chosen@ =~= open_flags(self.tasks@));
        let order = stable_order(&keys, &chosen);
        let ghost want = active_order(self.tasks@).map_values(|i: usize| self.tasks@[i as int]);
        let mut r: Vec<&Task> = Vec::new();
        let mut k: usize = 0;
        while k < order.len()
            invariant
                k <= order.len(),
                n == self.tasks.len(),
                order@ == active_order(self.tasks@),
                is_stable_order(task_keys(self.tasks@), open_flags(self.tasks@), order@),
                want == order@.map_values(|i: usize| self.tasks@[i as int]),
                r.len() == k,
                forall|m: int| 0 <= m < k ==> *r@[m] == want[m],
            decreases order.len() - k,
        {
            assert(order@[k as int] < n);
            r.push(&self.tasks[order[k]]);
            k = k + 1;
        }
        r
    }

    /// The tasks with `status`, in list order.
    fn tasks_in_status(&self, status: TaskStatus) -> (r: Vec<&Task>)
        ensures
            refs_are(r@, tasks_with_status(self.tasks@, status)),
    {
        let mut r: Vec<&Task> = Vec::new();
        let mut i: usize = 0;
        while i < self.tasks.len()
            invariant
                i <= self.tasks.len(),
                refs_are(r@, tasks_with_status(self.tasks@.take(i as int), status)),
            decreases self.tasks.len() - i,
        {
            proof {
                reveal_with_fuel(Seq::<_>::filter, 1);
                assert(self.tasks@.take(i as int + 1).drop_last() =~= self.tasks@.take(i as int));
            }
            if self.tasks[i].status == status {
                r.push(&self.tasks[i]);
            }
            i = i + 1;
        }
        assert(self.tasks@.take(self.tasks.len() as int) =~= self.tasks@);
        r
    }

    /// The completed tasks, in list order.
    pub fn completed_tasks(&self) -> (r: Vec<&Task>)
        ensures
            refs_are(r@, tasks_with_status(self.tasks@, TaskStatus::Done)),
    {
        self.tasks_in_status(TaskStatus::Done)
    }

    /// The dropped tasks, in list order.
    pub fn dropped_tasks(&self) -> (r: Vec<&Task>)
        ensures
            refs_are(r@, tasks_with_status(self.tasks@, TaskStatus::Dropped)),
    {
        self.tasks_in_status(TaskStatus::Dropped)
    }

    /// The open tasks, in list order.
    pub fn open_tasks(&self) -> (r: Vec<&Task>)
        ensures
            refs_are(r@, tasks_with_status(self.tasks@, TaskStatus::Open)),
    {
        self.tasks_in_status(TaskStatus::Open)
    }

    /// The open priority tasks, in list order.
    pub fn priority_tasks(&self) -> (r: Vec<&Task>)
        ensures
            refs_are(r@, open_priority_tasks(self.tasks@)),
    {
        let mut r: Vec<&Task> = Vec::new();
        let mut i: usize = 0;
        while i < self.tasks.len()
            invariant
                i <= self.tasks.len(),
                refs_are(r@, open_priority_tasks(self.tasks@.take(i as int))),
            decreases self.tasks.len() - i,
        {
            proof {
                reveal_with_fuel(Seq::<_>::filter, 1);
                assert(self.tasks@.take(i as int + 1).drop_last() =~= self.tasks@.take(i as int));
            }
            if self.tasks[i].status == TaskStatus::Open && self.tasks[i].priority {
                r.push(&self.tasks[i]);
            }
            i = i + 1;
        }
        assert(self.tasks@.take(self.tasks.len() as int) =~= self.tasks@);
        r
    }

    /// The finished blocks, in list order.
    pub fn completed_blocks(&self) -> (r: Vec<&Block>)
        ensures
            refs_are(r@, done_blocks(self.blocks@)),
    {
        let mut r: Vec<&Block> = Vec::new();
        let mut i: usize = 0;
        while i < self.blocks.len()
            invariant
                i <= self.blocks.len(),
                refs_are(r@, done_blocks(self.blocks@.take(i as int))),
            decreases self.blocks.len() - i,
        {
            proof {
                reveal_with_fuel(Seq::<_>::filter, 1);
                assert(self.blocks@.take(i as int + 1).drop_last() =~= self.blocks@.take(i as int));
            }
            if self.blocks[i].status == BlockStatus::Done {
                r.push(&self.blocks[i]);
            }
            i = i + 1;
        }
        assert(self.blocks@.take(self.blocks.len() as int) =~= self.blocks@);
        r
    }

    /// The first block in the given status.
    fn first_block_in(&self, status: BlockStatus) -> (r: Option<&Block>)
        ensures
            r is Some <==> first_index(self.blocks@, |b: Block| b.status == status) is Some,
            r matches Some(b) ==> *b == self.blocks@[first_index(self.blocks@, |b: Block| b.status == status)->0],
    {
        let ghost p = |b: Block| b.status == status;
        let mut i: usize = 0;
        while i < self.blocks.len()
            invariant
                i <= self.blocks.len(),
                p == (|b: Block| b.status == status),
                forall|j: int| 0 <= j < i ==> !p(self.blocks@[j]),
            decreases self.blocks.len() - i,
        {
            if self.blocks[i].status == status {
                proof { lemma_first_index_is(self.blocks@, p, i as int); }
                return Some(&self.blocks[i]);
            }
            i = i + 1;
        }
        proof { lemma_first_index_none(self.blocks@, p); }
        None
    }

    /// The active block: the first block whose status is active.
    pub fn active_block(&self) -> (r: Option<&Block>)
        ensures
            r is Some <==> first_index(self.blocks@, block_is_active()) is Some,
            r matches Some(b) ==> *b == self.blocks@[first_index(self.blocks@, block_is_active())->0],
    {
        let r = self.first_block_in(BlockStatus::Active);
        assert((|b: Block| b.status == BlockStatus::Active) == block_is_active());
        r
    }

    /// The next block: the first block that is still planned.
    pub fn next_block(&self) -> (r: Option<&Block>)
        ensures
            r is Some <==> first_index(self.blocks@, block_is_planned()) is Some,
            r matches Some(b) ==> *b == self.blocks@[first_index(self.blocks@, block_is_planned())->0],
    {
        let r = self.first_block_in(BlockStatus::Planned);
        assert((|b: Block| b.status == BlockStatus::Planned) == block_is_planned());
        r
    }

    /// The review summary of the day: the counts of completed tasks, open
    /// priority tasks, completed blocks and dropped tasks, and the focus time.
    pub fn review_text(&self) -> (s: String)
        ensures
            s@ == spec_review_text(self@),
    {
        let completed = self.completed_tasks().len();
        let priority = self.priority_tasks().len();
        let blocks = self.completed_blocks().len();
        let dropped = self.dropped_tasks().len();
        let mut cs = chars_of("DAWNLINE REVIEW\n\nCompleted tasks: ");
        extend_chars(&mut cs, &decimal_chars(completed as u64));
        extend_str(&mut cs, "\nOpen priority tasks: ");
        extend_chars(&mut cs, &decimal_chars(priority as u64));
        extend_str(&mut cs, "\nCompleted blocks: ");
        extend_chars(&mut cs, &decimal_chars(blocks as u64));
        extend_str(&mut cs, "\nDropped tasks: ");
        extend_chars(&mut cs, &decimal_chars(dropped as u64));
        extend_str(&mut cs, "\nFocus time: ");
        extend_chars(&mut cs, &decimal_chars(self.focus_minutes as u64));
        extend_str(&mut cs, "m\n");
        string_of(cs.as_slice())
    }

    /// Applies one event and records it in the history.
    pub fn apply(&mut self, event: Event)
        requires
            focus_fits(old(self)@, event),
        ensures
            final(self)@ == spec_apply(old(self)@, event),
    {
        let at = event.at;
        match &event.kind {
            EventKind::SessionStarted { session_id } => self.open_session(*session_id, at),
            EventKind::SessionFinished { session_id } => self.close_session(*session_id, at),
            EventKind::DayFinished => self.close_day(at),
            EventKind::BlockAdded { block_id, title, intent, timing } => {
                self.blocks.push(
                    Block {
                        id: *block_id,
                        title: title.clone(),
                        intent: copy_text_opt(intent),
                        timing: timing.clone(),
                        status: BlockStatus::Planned,
                        created_at: at,
                        started_at: None,
                        finished_at: None,
                    },
                );
            },
            EventKind::BlockStarted { block_id } => self.start_block_at(*block_id, at),
            EventKind::BlockFinished { block_id } => self.finish_block_at(*block_id, at),
            EventKind::TaskAdded { task_id, title, priority } => {
                self.tasks.push(
                    Task {
                        id: *task_id,
                        title: title.clone(),
                        priority: *priority,
                        status: TaskStatus::Open,
                        created_at: at,
                        closed_at: None,
                    },
                );
            },
            EventKind::TaskCompleted { task_id } => self.close_task(*task_id, TaskStatus::Done, at),
            EventKind::TaskDropped { task_id } => self.close_task(*task_id, TaskStatus::Dropped, at),
            EventKind::TaskRemoved { task_id } => self.close_task(*task_id, TaskStatus::Removed, at),
            EventKind::TaskPriorityChanged { task_id, priority } => self.set_priority(*task_id, *priority),
            EventKind::NoteAdded { note_id, text } => {
                self.notes.push(Note { id: *note_id, text: text.clone(), created_at: at });
            },
            EventKind::FocusLogged { minutes } => {
                self.focus_minutes = self.focus_minutes + *minutes;
            },
        }
        self.history.push(event);
    }

    fn open_session(&mut self, sid: u128, at: Timestamp)
        ensures
            final(self)@ == (DayModel {
                current_session_id: Some(sid),
                sessions: old(self)@.sessions.push(Session { id: sid, started_at: at, finished_at: None }),
                ..old(self)@
            }),
    {
        self.current_session_id = Some(sid);
        self.sessions.push(Session { id: sid, started_at: at, finished_at: None });
    }

    fn close_session(&mut self, sid: u128, at: Timestamp)
        ensures
            final(self)@ == (DayModel {
                sessions: match first_index(old(self)@.sessions, session_has_id(sid)) {
                    Some(i) => old(self)@.sessions.update(
                        i,
                        Session {
                            id: old(self)@.sessions[i].id,
                            started_at: old(self)@.sessions[i].started_at,
                            finished_at: Some(at),
                        },
                    ),
                    None => old(self)@.sessions,
                },
                current_session_id: if old(self)@.current_session_id == Some(sid) {
                    None
                } else {
                    old(self)@.current_session_id
                },
                ..old(self)@
            }),
    {
        match self.find_session(sid) {
            Some(i) => {
                let mut s = self.sessions[i];
                s.finished_at = Some(at);
                self.sessions.set(i, s);
            },
            None => {},
        }
        if self.current_session_id == Some(sid) {
            self.current_session_id = None;
        }
    }

    fn close_day(&mut self, at: Timestamp)
        ensures
            final(self)@ == (DayModel {
                day_finished: true,
                sessions: old(self)@.sessions.map_values(|s: Session| session_closed_at(s, at)),
                current_session_id: None,
                ..old(self)@
            }),
    {
        self.day_finished = true;
        let ghost before = self.sessions@;
        let ghost pre = self@;
        let mut i: usize = 0;
        while i < self.sessions.len()
            invariant
                i <= self.sessions.len() == before.len(),
                self@ == (DayModel { sessions: self@.sessions, ..pre }),
                pre.day_finished,
                pre == (DayModel { day_finished: true, ..old(self)@ }),
                forall|k: int| 0 <= k < i ==> self.sessions@[k] == session_closed_at(before[k], at),
                forall|k: int| i <= k < before.len() ==> self.sessions@[k] == before[k],
            decreases before.len() - i,
        {
            let mut s = self.sessions[i];
            if s.finished_at.is_none() {
                s.finished_at = Some(at);
            }
            self.sessions.set(i, s);
            i = i + 1;
        }
        assert(self.sessions@ =~= before.map_values(|s: Session| session_closed_at(s, at)));
        self.current_session_id = None;
    }

    fn start_block_at(&mut self, bid: u128, at: Timestamp)
        ensures
            final(self)@ == (DayModel {
                blocks: old(self)@.blocks.map_values(|b: Block| block_after_start(b, bid, at)),
                ..old(self)@
            }),
    {
        let ghost before = self.blocks@;
        let ghost pre = self@;
        let mut i: usize = 0;
        while i < self.blocks.len()
            invariant
                i <= self.blocks.len() == before.len(),
                self@ == (DayModel { blocks: self@.blocks, ..pre }),
                pre == old(self)@,
                forall|k: int| 0 <= k < i ==> self.blocks@[k] == block_after_start(before[k], bid, at),
                forall|k: int| i <= k < before.len() ==> self.blocks@[k] == before[k],
            decreases before.len() - i,
        {
            if self.blocks[i].status == BlockStatus::Active {
                self.blocks[i].status = BlockStatus::Planned;
            }
            if self.blocks[i].id == bid {
                self.blocks[i].status = BlockStatus::Active;
                self.blocks[i].started_at = Some(at);
            }
            i = i + 1;
        }
        assert(self.blocks@ =~= before.map_values(|b: Block| block_after_start(b, bid, at)));
    }

    fn finish_block_at(&mut self, bid: u128, at: Timestamp)
        ensures
            final(self)@ == (DayModel {
                blocks: match first_index(old(self)@.blocks, block_has_id(bid)) {
                    Some(i) => old(self)@.blocks.update(i, block_finished_at(old(self)@.blocks[i], at)),
                    None => old(self)@.blocks,
                },
                ..old(self)@
            }),
    {
        match self.find_block(bid) {
            Some(i) => {
                self.blocks[i].status = BlockStatus::Done;
                self.blocks[i].finished_at = Some(at);
            },
            None => {},
        }
    }

    fn set_priority(&mut self, tid: u128, priority: bool)
        ensures
            final(self)@ == (DayModel {
                tasks: match first_index(old(self)@.tasks, task_has_id(tid)) {
                    Some(i) => old(self)@.tasks.update(i, task_with_priority(old(self)@.tasks[i], priority)),
                    None => old(self)@.tasks,
                },
                ..old(self)@
            }),
    {
        match self.find_task(tid) {
            Some(i) => {
                self.tasks[i].priority = priority;
            },
            None => {},
        }
    }

    /// Closes the first task with `task_id`, if there is one.
    pub fn close_task(&mut self, task_id: u128, status: TaskStatus, at: Timestamp)
        ensures
            final(self)@ == (DayModel { tasks: tasks_after_close(old(self)@.tasks, task_id, status, at), ..old(self)@ }),
    {
        match self.find_task(task_id) {
            Some(i) => {
                self.tasks[i].status = status;
                self.tasks[i].closed_at = Some(at);
            },
            None => {},
        }
    }

    /// The position of the first session with `id`.
    fn find_session(&self, id: u128) -> (r: Option<usize>)
        ensures
            r matches Some(i) ==> i < self.sessions.len() && first_index(self.sessions@, session_has_id(id)) == Some(i as int),
            r is None ==> first_index(self.sessions@, session_has_id(id)) is None,
    {
        let mut i: usize = 0;
        while i < self.sessions.len()
            invariant
                i <= self.sessions.len(),
                forall|j: int| 0 <= j < i ==> !session_has_id(id)(self.sessions@[j]),
            decreases self.sessions.len() - i,
        {
            if self.sessions[i].id == id {
                proof { lemma_first_index_is(self.sessions@, session_has_id(id), i as int); }
                return Some(i);
            }
            i = i + 1;
        }
        proof { lemma_first_index_none(self.sessions@, session_has_id(id)); }
        None
    }

    /// The position of the first block with `id`.
    fn find_block(&self, id: u128) -> (r: Option<usize>)
        ensures
            r matches Some(i) ==> i < self.blocks.len() && first_index(self.blocks@, block_has_id(id)) == Some(i as int),
            r is None ==> first_index(self.blocks@, block_has_id(id)) is None,
    {
        let mut i: usize = 0;
        while i < self.blocks.len()
            invariant
                i <= self.blocks.len(),
                forall|j: int| 0 <= j < i ==> !block_has_id(id)(self.blocks@[j]),
            decreases self.blocks.len() - i,
        {
            if self.blocks[i].id == id {
                proof { lemma_first_index_is(self.blocks@, block_has_id(id), i as int); }
                return Some(i);
            }
            i = i + 1;
        }
        proof { lemma_first_index_none(self.blocks@, block_has_id(id)); }
        None
    }

    /// The position of the first task with `id`.
    fn find_task(&self, id: u128) -> (r: Option<usize>)
        ensures
            r matches Some(i) ==> i < self.tasks.len() && first_index(self.tasks@, task_has_id(id)) == Some(i as int),
            r is None ==> first_index(self.tasks@, task_has_id(id)) is None,
    {
        let mut i: usize = 0;
        while i < self.tasks.len()
            invariant
                i <= self.tasks.len(),
                forall|j: int| 0 <= j < i ==> !task_has_id(id)(self.tasks@[j]),
            decreases self.tasks.len() - i,
        {
            if self.tasks[i].id == id {
                proof { lemma_first_index_is(self.tasks@, task_has_id(id), i as int); }
                return Some(i);
            }
            i = i + 1;
        }
        proof { lemma_first_index_none(self.tasks@, task_has_id(id)); }
        None
    }
}

} // verus!
