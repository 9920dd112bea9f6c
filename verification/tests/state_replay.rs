use chrono::{DateTime, Duration, TimeZone, Utc};
use dawnline::cli::{parse_cli, CliCommand};
use dawnline::models::{BlockStatus, BlockTiming, DayState, Event, EventKind, TaskStatus, Timestamp};
use dawnline::state::AppState;
use dawnline::store::{
    block_event, find_active_task, loose_label, looks_like_time, note_event, palette_command, session_finish_event,
    session_start_event, task_event,
};
use uuid::Uuid;

fn event_at(offset: i64, kind: EventKind) -> Event {
    Event {
        id: Uuid::now_v7().as_u128(),
        at: stamp(Utc.with_ymd_and_hms(2026, 4, 30, 9, 0, 0).single().unwrap() + Duration::seconds(offset)),
        kind,
    }
}

fn stamp(at: DateTime<Utc>) -> Timestamp {
    Timestamp { secs: at.timestamp(), nanos: at.timestamp_subsec_nanos() }
}

fn task_added(offset: i64, task_id: u128, title: &str, priority: bool) -> Event {
    event_at(
        offset,
        EventKind::TaskAdded {
            task_id,
            title: title.to_string(),
            priority,
        },
    )
}

fn block_added(offset: i64, block_id: u128, title: &str, timing: BlockTiming) -> Event {
    event_at(
        offset,
        EventKind::BlockAdded {
            block_id,
            title: title.to_string(),
            intent: None,
            timing,
        },
    )
}

fn loose(label: &str) -> BlockTiming {
    BlockTiming::Loose { label: label.to_string() }
}

fn exact(start: &str) -> BlockTiming {
    BlockTiming::Exact { start: start.to_string(), end: None }
}

fn then_apply(state: &mut DayState, event: Option<Event>) {
    if let Some(event) = event {
        state.apply(event);
    }
}

#[test]
fn completed_task_is_hidden_from_active_tasks_but_kept_in_history() {
    let task_id = Uuid::now_v7().as_u128();

    let events = vec![
        task_added(0, task_id, "Finish event replay", false),
        event_at(1, EventKind::TaskCompleted { task_id }),
    ];

    let state = DayState::replay(&events);

    assert!(state.active_tasks().is_empty());
    assert_eq!(state.completed_tasks().len(), 1);
    assert_eq!(state.tasks[0].status, TaskStatus::Done);
    assert!(state.tasks[0].closed_at.is_some());
    assert_eq!(state.history.len(), 2);
}

#[test]
fn dropped_and_removed_tasks_leave_active_views_but_remain_in_history() {
    let dropped_id = Uuid::now_v7().as_u128();
    let removed_id = Uuid::now_v7().as_u128();

    let events = vec![
        task_added(0, dropped_id, "Drop this", false),
        task_added(1, removed_id, "Remove this", false),
        event_at(2, EventKind::TaskDropped { task_id: dropped_id }),
        event_at(3, EventKind::TaskRemoved { task_id: removed_id }),
    ];

    let state = DayState::replay(&events);

    assert!(state.active_tasks().is_empty());
    assert_eq!(state.dropped_tasks().len(), 1);
    assert_eq!(state.tasks[0].status, TaskStatus::Dropped);
    assert_eq!(state.tasks[1].status, TaskStatus::Removed);
    assert_eq!(state.history.len(), 4);
}

#[test]
fn tasks_in_the_same_microsecond_keep_their_nanosecond_order() {
    let later = Uuid::now_v7().as_u128();
    let earlier = Uuid::now_v7().as_u128();
    let base = Utc.with_ymd_and_hms(2026, 4, 30, 9, 0, 0).single().unwrap();
    let added = |nanos: i64, task_id: u128, title: &str| Event {
        id: Uuid::now_v7().as_u128(),
        at: stamp(base + Duration::nanoseconds(nanos)),
        kind: EventKind::TaskAdded { task_id, title: title.to_string(), priority: false },
    };
    let state = DayState::replay(&[added(700, later, "Later"), added(300, earlier, "Earlier")]);
    assert_eq!(state.tasks[0].created_at, Timestamp { secs: base.timestamp(), nanos: 700 });
    let tasks = state.active_tasks();
    assert_eq!(tasks[0].id, earlier);
    assert_eq!(tasks[1].id, later);
}

#[test]
fn priority_tasks_sort_above_normal_tasks_without_losing_created_order() {
    let normal_early = Uuid::now_v7().as_u128();
    let priority = Uuid::now_v7().as_u128();
    let normal_late = Uuid::now_v7().as_u128();

    let events = vec![
        task_added(0, normal_early, "Normal early", false),
        task_added(1, priority, "Priority", true),
        task_added(2, normal_late, "Normal late", false),
    ];

    let state = DayState::replay(&events);
    let tasks = state.active_tasks();

    assert_eq!(tasks[0].id, priority);
    assert_eq!(tasks[1].id, normal_early);
    assert_eq!(tasks[2].id, normal_late);
}

#[test]
fn block_start_and_finish_update_current_block() {
    let first = Uuid::now_v7().as_u128();
    let second = Uuid::now_v7().as_u128();

    let events = vec![
        block_added(0, first, "Write parser tests", loose("now")),
        block_added(1, second, "Review analytics", exact("13:00")),
        event_at(2, EventKind::BlockStarted { block_id: first }),
        event_at(3, EventKind::BlockFinished { block_id: first }),
        event_at(4, EventKind::BlockStarted { block_id: second }),
    ];

    let state = DayState::replay(&events);

    assert_eq!(state.active_block().unwrap().id, second);
    assert_eq!(state.completed_blocks().len(), 1);
    assert_eq!(state.blocks[0].status, BlockStatus::Done);
    assert_eq!(state.blocks[1].status, BlockStatus::Active);
}

#[test]
fn day_finished_closes_active_session() {
    let session_id = Uuid::now_v7().as_u128();

    let events = vec![
        event_at(0, EventKind::SessionStarted { session_id }),
        event_at(1, EventKind::DayFinished),
    ];

    let state = DayState::replay(&events);

    assert!(state.day_finished);
    assert_eq!(state.current_session_id, None);
    assert!(state.sessions[0].finished_at.is_some());
}

#[test]
fn store_does_not_start_new_session_after_day_is_finished() {
    let session_id = Uuid::now_v7().as_u128();
    let mut state = DayState::replay(&[
        event_at(0, EventKind::SessionStarted { session_id }),
        event_at(1, EventKind::DayFinished),
    ]);

    let start = session_start_event(&state);
    then_apply(&mut state, start);

    let started_sessions = state
        .history
        .iter()
        .filter(|event| matches!(event.kind, EventKind::SessionStarted { .. }))
        .count();

    assert!(state.day_finished);
    assert_eq!(started_sessions, 1);
}

#[test]
fn store_replays_appended_events() {
    let event = task_event("Ship auth fix".to_string(), true).unwrap();
    let task_id = match event.kind {
        EventKind::TaskAdded { task_id, .. } => task_id,
        _ => panic!("expected a task"),
    };

    let state = DayState::replay(&[event]);

    assert_eq!(state.active_tasks().len(), 1);
    assert_eq!(state.active_tasks()[0].id, task_id);
}

#[test]
fn palette_start_starts_block_even_when_no_block_is_active() {
    let block_id = Uuid::now_v7().as_u128();
    let mut state = DayState::replay(&[block_added(0, block_id, "Polish review screen", loose("next"))]);

    let reply = palette_command(&state, "start Polish");
    then_apply(&mut state, reply.event);

    assert_eq!(reply.message, "Block started");
    assert_eq!(state.active_block().unwrap().id, block_id);
}

#[test]
fn palette_accepts_leading_colon_and_exact_block_times() {
    let mut state = DayState::replay(&[]);

    let reply = palette_command(&state, ":add block 13:00 14:30 Review metrics");
    then_apply(&mut state, reply.event);

    assert_eq!(reply.message, "Block added");
    assert_eq!(state.blocks.len(), 1);

    match &state.blocks[0].timing {
        BlockTiming::Exact { start, end } => {
            assert_eq!(start, "13:00");
            assert_eq!(end.as_deref(), Some("14:30"));
        }
        _ => panic!("expected exact block timing"),
    }
}

#[test]
fn visible_blocks_group_loose_and_exact_blocks_for_timeline_navigation() {
    let later = Uuid::now_v7().as_u128();
    let next = Uuid::now_v7().as_u128();
    let afternoon = Uuid::now_v7().as_u128();
    let morning = Uuid::now_v7().as_u128();
    let now = Uuid::now_v7().as_u128();

    let state = DayState::replay(&[
        block_added(0, later, "Package release notes", loose("later")),
        block_added(1, next, "Polish review screen", loose("next")),
        block_added(2, afternoon, "Review metrics", exact("14:30")),
        block_added(3, morning, "Write parser tests", exact("09:30")),
        block_added(4, now, "Stabilize CLI flow", loose("now")),
    ]);

    let app = AppState::from_day(state);
    let ids: Vec<u128> = app.visible_blocks().into_iter().map(|block| block.id).collect();

    assert_eq!(ids, vec![now, next, morning, afternoon, later]);
}

#[test]
fn palette_adds_tasks_notes_and_focus() {
    let mut state = DayState::replay(&[]);

    let reply = palette_command(&state, "  add priority task   Patch an edge case ");
    assert_eq!(reply.message, "Priority task added");
    then_apply(&mut state, reply.event);
    assert_eq!(state.tasks[0].title, "  Patch an edge case");
    assert!(state.tasks[0].priority);

    let reply = palette_command(&state, "add task Ship auth fix");
    assert_eq!(reply.message, "Task added");
    then_apply(&mut state, reply.event);
    assert_eq!(state.tasks[1].title, "Ship auth fix");
    assert!(!state.tasks[1].priority);

    let reply = palette_command(&state, "note These have to be done today");
    assert_eq!(reply.message, "Note added");
    then_apply(&mut state, reply.event);
    assert_eq!(state.notes[0].text, "These have to be done today");

    let reply = palette_command(&state, "focus 25");
    assert_eq!(reply.message, "Focus logged: 25m");
    then_apply(&mut state, reply.event);
    let reply = palette_command(&state, "focus soon");
    assert_eq!(reply.message, "Focus logged: 45m");
    then_apply(&mut state, reply.event);
    assert_eq!(state.focus_minutes, 70);

    assert_eq!(palette_command(&state, "   ").message, "No command");
    assert_eq!(palette_command(&state, "review").message, "finish execution. then review.");
    assert_eq!(palette_command(&state, "dance").message, "Unknown command: dance");
    assert!(palette_command(&state, "dance").event.is_none());
}

#[test]
fn palette_block_forms() {
    let mut state = DayState::replay(&[]);
    for input in [
        "add block now Release",
        "add block NEXT  Hotfix   production",
        "add block 13:00 Deploy",
        "add block Write the summary",
        "add block later",
        "add block 9:30",
    ] {
        let reply = palette_command(&state, input);
        assert_eq!(reply.message, "Block added");
        then_apply(&mut state, reply.event);
    }
    assert_eq!(state.blocks.len(), 4);
    assert_eq!(state.blocks[0].timing, loose("now"));
    assert_eq!(state.blocks[0].title, "Release");
    assert_eq!(state.blocks[1].timing, loose("next"));
    assert_eq!(state.blocks[1].title, "Hotfix production");
    assert_eq!(state.blocks[2].timing, exact("13:00"));
    assert_eq!(state.blocks[2].title, "Deploy");
    assert_eq!(state.blocks[3].timing, loose("Later"));
    assert_eq!(state.blocks[3].title, "Write the summary");
    assert_eq!(state.blocks[3].timing.label(), "Later");
    assert_eq!(
        BlockTiming::Exact { start: "15:00".to_string(), end: Some("18:00".to_string()) }.label(),
        "15:00-18:00"
    );
}

#[test]
fn palette_task_references_by_number_and_title() {
    let a = Uuid::now_v7().as_u128();
    let b = Uuid::now_v7().as_u128();
    let c = Uuid::now_v7().as_u128();
    let mut state = DayState::replay(&[
        task_added(0, a, "Write docs", false),
        task_added(1, b, "Ship auth fix", true),
        task_added(2, c, "Review PR", false),
    ]);

    assert_eq!(find_active_task(&state, "1"), Some(b));
    assert_eq!(find_active_task(&state, "0"), Some(b));
    assert_eq!(find_active_task(&state, " 3 "), Some(c));
    assert_eq!(find_active_task(&state, "4"), None);
    assert_eq!(find_active_task(&state, "DOCS"), Some(a));
    assert_eq!(find_active_task(&state, "nothing"), None);

    let reply = palette_command(&state, "done task 2");
    assert_eq!(reply.message, "Task completed");
    then_apply(&mut state, reply.event);
    assert_eq!(state.tasks[0].status, TaskStatus::Done);

    let reply = palette_command(&state, "drop task review");
    assert_eq!(reply.message, "Task dropped");
    then_apply(&mut state, reply.event);
    assert_eq!(state.tasks[2].status, TaskStatus::Dropped);

    let reply = palette_command(&state, "remove task 1");
    assert_eq!(reply.message, "Task removed");
    then_apply(&mut state, reply.event);
    assert_eq!(state.tasks[1].status, TaskStatus::Removed);

    let reply = palette_command(&state, "done task 1");
    assert_eq!(reply.message, "No active task matched: 1");
    assert!(reply.event.is_none());
    assert_eq!(palette_command(&state, "start nothing").message, "No block matched: nothing");
}

#[test]
fn palette_start_ignores_case() {
    let block_id = Uuid::now_v7().as_u128();
    let state = DayState::replay(&[block_added(0, block_id, "Polish review screen", loose("next"))]);
    let reply = palette_command(&state, "start POLISH");
    assert_eq!(reply.message, "Block started");
    assert_eq!(reply.event.unwrap().kind, EventKind::BlockStarted { block_id });
}

#[test]
fn palette_finish_ends_the_current_session() {
    let session_id = Uuid::now_v7().as_u128();
    let mut state = DayState::replay(&[event_at(0, EventKind::SessionStarted { session_id })]);
    assert!(session_start_event(&state).is_none());
    let reply = palette_command(&state, "finish");
    assert_eq!(reply.message, "Session finished");
    then_apply(&mut state, reply.event);
    assert_eq!(state.current_session_id, None);
    assert!(session_finish_event(&state).is_none());
    assert!(session_start_event(&state).is_some());
}

#[test]
fn blank_titles_add_nothing() {
    assert!(task_event("   ".to_string(), false).is_none());
    assert!(note_event("".to_string()).is_none());
    assert!(block_event(" \t".to_string(), None).is_none());
    let event = block_event("Review last week".to_string(), Some("13:00".to_string())).unwrap();
    assert_eq!(
        event.kind,
        EventKind::BlockAdded {
            block_id: match event.kind {
                EventKind::BlockAdded { block_id, .. } => block_id,
                _ => 0,
            },
            title: "Review last week".to_string(),
            intent: None,
            timing: exact("13:00"),
        }
    );
}

#[test]
fn time_and_label_words() {
    assert!(looks_like_time("13:00"));
    assert!(looks_like_time("9:30"));
    assert!(looks_like_time(":30"));
    assert!(!looks_like_time("13:0"));
    assert!(!looks_like_time("123:00"));
    assert!(!looks_like_time("13:00:00"));
    assert!(!looks_like_time("ab:cd"));
    assert_eq!(loose_label("NOW"), Some("now".to_string()));
    assert_eq!(loose_label("Later"), Some("later".to_string()));
    assert_eq!(loose_label("soon"), None);
}

#[test]
fn review_text_counts_the_day() {
    let a = Uuid::now_v7().as_u128();
    let b = Uuid::now_v7().as_u128();
    let c = Uuid::now_v7().as_u128();
    let block = Uuid::now_v7().as_u128();
    let state = DayState::replay(&[
        task_added(0, a, "One", false),
        task_added(1, b, "Two", true),
        task_added(2, c, "Three", false),
        event_at(3, EventKind::TaskCompleted { task_id: a }),
        event_at(4, EventKind::TaskDropped { task_id: c }),
        block_added(5, block, "Block", loose("now")),
        event_at(6, EventKind::BlockFinished { block_id: block }),
        event_at(7, EventKind::FocusLogged { minutes: 90 }),
        event_at(8, EventKind::TaskPriorityChanged { task_id: b, priority: true }),
    ]);
    assert_eq!(
        state.review_text(),
        "DAWNLINE REVIEW\n\nCompleted tasks: 1\nOpen priority tasks: 1\nCompleted blocks: 1\nDropped tasks: 1\nFocus time: 90m\n"
    );
    assert_eq!(state.priority_tasks()[0].id, b);
    assert_eq!(state.open_tasks().len(), 1);
    assert_eq!(TaskStatus::Dropped.label(), "dropped");
    assert_eq!(BlockStatus::Done.label(), "done");
}

#[test]
fn priority_change_moves_a_task_up() {
    let a = Uuid::now_v7().as_u128();
    let b = Uuid::now_v7().as_u128();
    let state = DayState::replay(&[
        task_added(0, a, "First", false),
        task_added(1, b, "Second", false),
        event_at(2, EventKind::TaskPriorityChanged { task_id: b, priority: true }),
    ]);
    let ids: Vec<u128> = state.active_tasks().into_iter().map(|t| t.id).collect();
    assert_eq!(ids, vec![b, a]);
}

#[test]
fn selection_follows_the_lists() {
    let a = Uuid::now_v7().as_u128();
    let state = DayState::replay(&[task_added(0, a, "Only", false)]);
    let mut app = AppState::from_day(state);
    assert_eq!(app.task_state.selected(), Some(0));
    assert_eq!(app.block_state.selected(), None);
    app.task_state.select(Some(7));
    app.sync_selection();
    assert_eq!(app.task_state.selected(), Some(0));
    app.day.apply(event_at(1, EventKind::TaskCompleted { task_id: a }));
    app.sync_selection();
    assert_eq!(app.task_state.selected(), None);
    assert_eq!(app.selected_task_id(), None);
}

#[test]
fn syncing_twice_is_syncing_once_and_the_timeline_lists_every_block() {
    let first = Uuid::now_v7().as_u128();
    let second = Uuid::now_v7().as_u128();
    let third = Uuid::now_v7().as_u128();
    let state = DayState::replay(&[
        block_added(0, first, "Later work", loose("later")),
        block_added(1, second, "Morning", exact("09:00")),
        block_added(2, third, "Right now", loose("now")),
    ]);
    let mut app = AppState::from_day(state);
    assert_eq!(app.visible_blocks().len(), 3);
    app.block_state.select(Some(9));
    app.sync_selection();
    assert_eq!(app.block_state.selected(), Some(2));
    assert_eq!(app.selected_block_id(), Some(first));
    app.sync_selection();
    assert_eq!(app.block_state.selected(), Some(2));
    app.block_state.select(None);
    app.sync_selection();
    assert_eq!(app.block_state.selected(), Some(0));
    assert_eq!(app.selected_block_id(), Some(third));
}

#[test]
fn command_line_arguments() {
    let args = |v: &[&str]| v.iter().map(|s| s.to_string()).collect::<Vec<String>>();
    assert_eq!(
        parse_cli(&args(&["task", "--priority", "Patch", "an", "edge"])),
        CliCommand::Task { title: "Patch an edge".to_string(), priority: true }
    );
    assert_eq!(
        parse_cli(&args(&["task", "Ship auth fix"])),
        CliCommand::Task { title: "Ship auth fix".to_string(), priority: false }
    );
    assert_eq!(
        parse_cli(&args(&["block", "--at", "13:00", "Review", "last", "week"])),
        CliCommand::Block { title: "Review last week".to_string(), at: Some("13:00".to_string()) }
    );
    assert_eq!(
        parse_cli(&args(&["block", "Write", "unit", "tests"])),
        CliCommand::Block { title: "Write unit tests".to_string(), at: None }
    );
    assert_eq!(
        parse_cli(&args(&["note", "An", "important", "note"])),
        CliCommand::Note { text: "An important note".to_string() }
    );
    assert_eq!(parse_cli(&args(&["review"])), CliCommand::Review);
    assert_eq!(parse_cli(&args(&["finish"])), CliCommand::Finish);
    assert_eq!(parse_cli(&args(&["dance"])), CliCommand::Usage);
    assert_eq!(parse_cli(&args(&[])), CliCommand::Usage);
}

#[test]
fn loading_after_an_append_is_applying_it() {
    let a = Uuid::now_v7().as_u128();
    let first = vec![task_added(0, a, "One", false)];
    let more = event_at(1, EventKind::TaskCompleted { task_id: a });

    let mut incremental = DayState::replay(&first);
    incremental.apply(more.clone());

    let mut all = first.clone();
    all.push(more);
    let replayed = DayState::replay(&all);

    assert_eq!(incremental.tasks, replayed.tasks);
    assert_eq!(incremental.history, replayed.history);
    assert_eq!(replayed.history, all);
}

#[test]
fn a_finished_day_stays_finished() {
    let s1 = Uuid::now_v7().as_u128();
    let s2 = Uuid::now_v7().as_u128();
    let state = DayState::replay(&[
        event_at(0, EventKind::SessionStarted { session_id: s1 }),
        event_at(1, EventKind::SessionFinished { session_id: s1 }),
        event_at(2, EventKind::SessionStarted { session_id: s2 }),
        event_at(3, EventKind::DayFinished),
        event_at(4, EventKind::SessionStarted { session_id: s1 }),
    ]);
    assert!(state.day_finished);
    assert_eq!(state.sessions.len(), 3);
    assert!(state.sessions[0].finished_at.is_some());
    assert!(state.sessions[1].finished_at.is_some());
    assert_eq!(state.current_session_id, Some(s1));
    assert!(session_start_event(&state).is_none());
}

#[test]
fn nothing_leaves_the_day() {
    let a = Uuid::now_v7().as_u128();
    let block = Uuid::now_v7().as_u128();
    let events = vec![
        task_added(0, a, "One", false),
        block_added(1, block, "Block", loose("now")),
        event_at(2, EventKind::TaskRemoved { task_id: a }),
        event_at(3, EventKind::BlockFinished { block_id: block }),
        event_at(4, EventKind::NoteAdded { note_id: a, text: "kept".to_string() }),
    ];
    let mut sizes = Vec::new();
    for k in 0..=events.len() {
        let state = DayState::replay(&events[..k]);
        sizes.push((state.tasks.len(), state.blocks.len(), state.notes.len(), state.history.len()));
    }
    assert_eq!(sizes, vec![(0, 0, 0, 0), (1, 0, 0, 1), (1, 1, 0, 2), (1, 1, 0, 3), (1, 1, 0, 4), (1, 1, 1, 5)]);
}

#[test]
fn palette_colon_is_the_same_command() {
    let state = DayState::replay(&[]);
    let plain = palette_command(&state, "add task Ship it");
    let colon = palette_command(&state, ":add task Ship it");
    assert_eq!(plain.message, colon.message);
    match (plain.event.unwrap().kind, colon.event.unwrap().kind) {
        (EventKind::TaskAdded { title: a, .. }, EventKind::TaskAdded { title: b, .. }) => assert_eq!(a, b),
        _ => panic!("expected two tasks"),
    }
    assert_eq!(palette_command(&state, "::finish").message, "Session finished");
}

#[test]
fn scrolling_stops_at_the_ends() {
    let a = Uuid::now_v7().as_u128();
    let b = Uuid::now_v7().as_u128();
    let state = DayState::replay(&[task_added(0, a, "One", false), task_added(1, b, "Two", false)]);
    let mut app = AppState::from_day(state);
    app.active_pane = dawnline::state::ActivePane::Tasks;
    app.scroll_up();
    assert_eq!(app.task_state.selected(), Some(0));
    app.scroll_down();
    app.scroll_down();
    app.scroll_down();
    assert_eq!(app.task_state.selected(), Some(1));
    assert_eq!(app.selected_task_id(), Some(b));
    app.active_pane = dawnline::state::ActivePane::Timeline;
    app.scroll_down();
    assert_eq!(app.block_state.selected(), None);
}
