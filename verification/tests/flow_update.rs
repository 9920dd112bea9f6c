use chrono::{DateTime, Duration, TimeZone, Utc};
use dawnline::action::{key_action, Action, KeyInput};
use dawnline::models::{BlockTiming, DayState, Event, EventKind, Timestamp};
use dawnline::state::{ActivePane, AppState, CurrentScreen};
use dawnline::ui::{current_hints, format_minutes};
use dawnline::update::{focus_minutes_from_command, update, Command};
use uuid::Uuid;

fn event_at(offset: i64, kind: EventKind) -> Event {
    Event {
        id: Uuid::now_v7().as_u128(),
        at: stamp(Utc.with_ymd_and_hms(2026, 4, 30, 9, 0, 0).single().unwrap() + Duration::seconds(offset)),
        kind,
    }
}

fn stamp(at: DateTime<Utc>) -> Timestamp {
    Timestamp { secs: at.timestamp(), nanos: at.timestamp_subsec_nanos() }
}

fn app_with_active_session_and_block() -> (AppState, u128, u128) {
    let session_id = Uuid::now_v7().as_u128();
    let block_id = Uuid::now_v7().as_u128();

    let day = DayState::replay(&[
        event_at(0, EventKind::SessionStarted { session_id }),
        event_at(
            1,
            EventKind::BlockAdded {
                block_id,
                title: "Stabilize CLI flow".to_string(),
                intent: Some("make it shippable".to_string()),
                timing: BlockTiming::Loose {
                    label: "now".to_string(),
                },
            },
        ),
        event_at(2, EventKind::BlockStarted { block_id }),
    ]);

    (AppState::from_day(day), session_id, block_id)
}

fn type_text(app: &mut AppState, text: &str) {
    for c in text.chars() {
        update(app, Action::Char(c));
    }
}

#[test]
fn tab_switches_panes_without_changing_mode() {
    let (mut app, _, _) = app_with_active_session_and_block();

    assert_eq!(app.current_screen, CurrentScreen::Plan);
    assert_eq!(app.active_pane, ActivePane::Timeline);

    update(&mut app, Action::NextTab);

    assert_eq!(app.current_screen, CurrentScreen::Plan);
    assert_eq!(app.active_pane, ActivePane::Tasks);

    update(&mut app, Action::NextTab);

    assert_eq!(app.current_screen, CurrentScreen::Plan);
    assert_eq!(app.active_pane, ActivePane::Timeline);
}

#[test]
fn enter_only_moves_from_plan_to_execute() {
    let (mut app, _, _) = app_with_active_session_and_block();

    update(&mut app, Action::Enter);

    assert_eq!(app.current_screen, CurrentScreen::Execute);

    update(&mut app, Action::Enter);

    assert_eq!(app.current_screen, CurrentScreen::Execute);
}

#[test]
fn finish_execution_moves_to_review_and_emits_block_and_session_finish_events() {
    let (mut app, session_id, block_id) = app_with_active_session_and_block();

    update(&mut app, Action::Enter);
    let command = update(&mut app, Action::Char('f'));

    assert_eq!(app.current_screen, CurrentScreen::Review);

    let events = match command {
        Some(Command::AppendEvents(events)) => events,
        _ => panic!("expected append events command"),
    };

    assert!(events.iter().any(|event| {
        matches!(
            event.kind,
            EventKind::BlockFinished { block_id: id } if id == block_id
        )
    }));

    assert!(events.iter().any(|event| {
        matches!(
            event.kind,
            EventKind::SessionFinished { session_id: id } if id == session_id
        )
    }));
}

#[test]
fn finish_day_only_emits_day_finished_from_review() {
    let (mut app, _, _) = app_with_active_session_and_block();

    assert_eq!(update(&mut app, Action::FinishDay), None);

    update(&mut app, Action::Enter);
    update(&mut app, Action::Char('f'));

    let command = update(&mut app, Action::Char('f'));

    assert!(matches!(
        command,
        Some(Command::AppendEvent(Event {
            kind: EventKind::DayFinished,
            ..
        }))
    ));
}

#[test]
fn review_command_does_not_skip_execution_finish() {
    let (mut app, _, _) = app_with_active_session_and_block();

    update(&mut app, Action::OpenCommand);
    update(&mut app, Action::Char('r'));
    update(&mut app, Action::Char('e'));
    update(&mut app, Action::Char('v'));
    update(&mut app, Action::Char('i'));
    update(&mut app, Action::Char('e'));
    update(&mut app, Action::Char('w'));

    let command = update(&mut app, Action::Enter);

    assert_eq!(command, None);
    assert_eq!(app.current_screen, CurrentScreen::Plan);
}

#[test]
fn focus_hotkey_starts_timer_and_logs_focus_from_execute() {
    let (mut app, _, _) = app_with_active_session_and_block();

    update(&mut app, Action::Enter);
    let command = update(&mut app, Action::Char('t'));

    assert!(app.focus_remaining_seconds().is_some());

    assert!(matches!(
        command,
        Some(Command::AppendEvent(Event {
            kind: EventKind::FocusLogged { minutes: 45 },
            ..
        }))
    ));
}

#[test]
fn focus_command_starts_requested_timer_from_execute() {
    let (mut app, _, _) = app_with_active_session_and_block();

    update(&mut app, Action::Enter);
    update(&mut app, Action::OpenCommand);

    for c in "focus 25".chars() {
        update(&mut app, Action::Char(c));
    }

    let command = update(&mut app, Action::Enter);

    assert_eq!(app.focus_minutes, 25);
    assert!(app.focus_remaining_seconds().is_some());

    assert!(matches!(
        command,
        Some(Command::AppendEvent(Event {
            kind: EventKind::FocusLogged { minutes: 25 },
            ..
        }))
    ));
}

#[test]
fn focus_hotkey_outside_execute_only_explains() {
    let (mut app, _, _) = app_with_active_session_and_block();

    let command = update(&mut app, Action::Char('t'));

    assert_eq!(command, None);
    assert_eq!(app.status_message, "focus starts in execute");
    assert!(app.focus_remaining_seconds().is_none());
}

#[test]
fn focus_remaining_counts_down_and_ends() {
    let (mut app, _, _) = app_with_active_session_and_block();
    app.focus_minutes = 25;
    let at = |secs: i64, nanos: u32| Timestamp { secs, nanos };
    app.focus_started_at = Some(at(1, 0));

    assert_eq!(app.focus_remaining_at(at(1, 0)), Some(1500));
    assert_eq!(app.focus_remaining_at(at(1, 500_000_000)), Some(1500));
    assert_eq!(app.focus_remaining_at(at(2, 1)), Some(1499));
    assert_eq!(app.focus_remaining_at(at(61, 0)), Some(1440));
    assert_eq!(app.focus_remaining_at(at(1500, 999_999_999)), Some(1));
    assert_eq!(app.focus_remaining_at(at(1501, 0)), None);
    assert_eq!(app.focus_remaining_at(at(0, 0)), Some(1500));
}

#[test]
fn focus_command_parsing() {
    assert_eq!(focus_minutes_from_command("focus"), Some(45));
    assert_eq!(focus_minutes_from_command("  :focus 90 "), Some(90));
    assert_eq!(focus_minutes_from_command("focus soon"), Some(45));
    assert_eq!(focus_minutes_from_command("focus +30"), Some(30));
    assert_eq!(focus_minutes_from_command("focus 99999999999"), Some(45));
    assert_eq!(focus_minutes_from_command("focused"), None);
    assert_eq!(focus_minutes_from_command("add task x"), None);
}

#[test]
fn command_line_edits_and_closes() {
    let (mut app, _, _) = app_with_active_session_and_block();

    update(&mut app, Action::Char(':'));
    assert!(app.command_mode);
    type_text(&mut app, "add taskk");
    update(&mut app, Action::Backspace);
    assert_eq!(app.command_buffer, "add task");
    type_text(&mut app, " Ship it");

    let command = update(&mut app, Action::Enter);
    assert_eq!(command, Some(Command::RunPalette("add task Ship it".to_string())));
    assert!(app.command_mode);

    update(&mut app, Action::Esc);
    assert!(!app.command_mode);
    assert_eq!(app.command_buffer, "");

    update(&mut app, Action::OpenCommand);
    update(&mut app, Action::Backspace);
    assert_eq!(app.command_buffer, "");
}

#[test]
fn finish_in_plan_only_hints_and_new_session_needs_review() {
    let (mut app, _, _) = app_with_active_session_and_block();

    assert_eq!(update(&mut app, Action::Char('f')), None);
    assert_eq!(app.status_message, "enter to begin executing");
    assert_eq!(update(&mut app, Action::Char('n')), None);
    assert_eq!(app.current_screen, CurrentScreen::Plan);

    update(&mut app, Action::Enter);
    update(&mut app, Action::Char('f'));
    assert_eq!(app.active_pane, ActivePane::CarryForward);

    let command = update(&mut app, Action::Char('n'));
    assert!(matches!(
        command,
        Some(Command::AppendEvent(Event {
            kind: EventKind::SessionStarted { .. },
            ..
        }))
    ));
    assert_eq!(app.current_screen, CurrentScreen::Plan);
    assert_eq!(app.active_pane, ActivePane::Timeline);
}

#[test]
fn finished_day_refuses_new_session() {
    let session_id = Uuid::now_v7().as_u128();
    let day = DayState::replay(&[
        event_at(0, EventKind::SessionStarted { session_id }),
        event_at(1, EventKind::DayFinished),
    ]);
    let mut app = AppState::from_day(day);
    update(&mut app, Action::Enter);
    assert_eq!(update(&mut app, Action::FinishSession), None);
    assert_eq!(app.current_screen, CurrentScreen::Review);

    assert_eq!(update(&mut app, Action::StartNewSession), None);
    assert_eq!(app.status_message, "day already finished");
}

#[test]
fn task_actions_need_the_task_pane() {
    let task_id = Uuid::now_v7().as_u128();
    let day = DayState::replay(&[event_at(
        0,
        EventKind::TaskAdded {
            task_id,
            title: "Write docs".to_string(),
            priority: false,
        },
    )]);
    let mut app = AppState::from_day(day);

    assert_eq!(update(&mut app, Action::CompleteSelectedTask), None);
    assert_eq!(app.status_message, "select tasks to complete a task");
    assert_eq!(update(&mut app, Action::Char('d')), None);
    assert_eq!(app.status_message, "select tasks to drop a task");
    assert_eq!(update(&mut app, Action::Char('x')), None);
    assert_eq!(app.status_message, "select tasks to remove a task");

    update(&mut app, Action::NextTab);
    assert_eq!(app.selected_task_id(), Some(task_id));
    let done = update(&mut app, Action::Char(' '));
    assert!(matches!(
        done,
        Some(Command::AppendEvent(Event { kind: EventKind::TaskCompleted { task_id: id }, .. })) if id == task_id
    ));
    let dropped = update(&mut app, Action::Char('d'));
    assert!(matches!(
        dropped,
        Some(Command::AppendEvent(Event { kind: EventKind::TaskDropped { task_id: id }, .. })) if id == task_id
    ));
}

#[test]
fn starting_a_block_finishes_the_active_one() {
    let first = Uuid::now_v7().as_u128();
    let second = Uuid::now_v7().as_u128();
    let day = DayState::replay(&[
        event_at(
            0,
            EventKind::BlockAdded {
                block_id: first,
                title: "First".to_string(),
                intent: None,
                timing: BlockTiming::Loose { label: "now".to_string() },
            },
        ),
        event_at(
            1,
            EventKind::BlockAdded {
                block_id: second,
                title: "Second".to_string(),
                intent: None,
                timing: BlockTiming::Loose { label: "next".to_string() },
            },
        ),
        event_at(2, EventKind::BlockStarted { block_id: first }),
    ]);
    let mut app = AppState::from_day(day);
    update(&mut app, Action::Down);
    assert_eq!(app.selected_block_id(), Some(second));

    let command = update(&mut app, Action::Char('s'));
    let events = match command {
        Some(Command::AppendEvents(events)) => events,
        _ => panic!("expected append events command"),
    };
    assert_eq!(events.len(), 2);
    assert_eq!(events[0].kind, EventKind::BlockFinished { block_id: first });
    assert_eq!(events[1].kind, EventKind::BlockStarted { block_id: second });

    update(&mut app, Action::Up);
    let again = update(&mut app, Action::Char('s'));
    let events = match again {
        Some(Command::AppendEvents(events)) => events,
        _ => panic!("expected append events command"),
    };
    assert_eq!(events.len(), 1);
    assert_eq!(events[0].kind, EventKind::BlockStarted { block_id: first });
}

#[test]
fn store_results_reach_the_status_line() {
    let (mut app, _, _) = app_with_active_session_and_block();
    update(&mut app, Action::ReceiveStoreResult(Ok("Task added".to_string())));
    assert_eq!(app.status_message, "Task added");
    update(&mut app, Action::ReceiveStoreResult(Err("disk full".to_string())));
    assert_eq!(app.status_message, "Error: disk full");
}

#[test]
fn keys_map_to_actions() {
    assert_eq!(key_action(KeyInput::Char(':'), false), Action::OpenCommand);
    assert_eq!(key_action(KeyInput::Char(':'), true), Action::Char(':'));
    assert_eq!(key_action(KeyInput::Char('?'), false), Action::ToggleHelp);
    assert_eq!(key_action(KeyInput::Char('q'), false), Action::Quit);
    assert_eq!(key_action(KeyInput::Char('q'), true), Action::Char('q'));
    assert_eq!(key_action(KeyInput::Tab, false), Action::NextTab);
    assert_eq!(key_action(KeyInput::BackTab, false), Action::PrevTab);
    assert_eq!(key_action(KeyInput::Up, true), Action::Tick);
    assert_eq!(key_action(KeyInput::Other, false), Action::Tick);
}

#[test]
fn durations_and_hints_read_well() {
    assert_eq!(format_minutes(0), "0m");
    assert_eq!(format_minutes(45), "45m");
    assert_eq!(format_minutes(60), "1h");
    assert_eq!(format_minutes(135), "2h 15m");

    let (mut app, _, _) = app_with_active_session_and_block();
    let keys: Vec<&str> = current_hints(&app).into_iter().map(|(k, _)| k).collect();
    assert_eq!(keys, vec!["tab", "a", "s", "enter", "?", "q"]);
    update(&mut app, Action::Enter);
    let hints = current_hints(&app);
    assert_eq!(hints[0], ("space", "done"));
    assert_eq!(hints.len(), 5);
}
