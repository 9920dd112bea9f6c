//! How the screen answers each input: the next state, and what is to be done
//! outside (quit, append events, run a palette command).
use vstd::prelude::*;

use crate::action::Action;
use crate::models::{block_is_active, event_fits, first_index, DayModel, Event, EventKind, Planned};
use crate::state::{ActivePane, AppState, AppView, CurrentScreen};
use crate::clock::fresh_id;
use crate::text::{
    chars_of, clear_string, concat_text, owned, parse_u32, parse_u32_chars, pop_char, push_char,
    string_of, strip_prefix, stripped_prefix, trim, trim_start_char, trimmed, trimmed_start_char, is_text,
};

verus! {

/// What the screen asks to be done outside.
#[derive(Debug, PartialEq)]
pub enum Command {
    Quit,
    AppendEvent(Event),
    AppendEvents(Vec<Event>),
    RunPalette(String),
}

/// What a command must be.
pub enum Outcome {
    Quit,
    Append(Planned),
    AppendAll(Seq<Planned>),
    Palette(Seq<char>),
}

/// The command is what was planned.
pub open spec fn command_fits(c: Option<Command>, o: Option<Outcome>) -> bool {
    match (c, o) {
        (None, None) => true,
        (Some(Command::Quit), Some(Outcome::Quit)) => true,
        (Some(Command::AppendEvent(e)), Some(Outcome::Append(p))) => event_fits(e, p),
        (Some(Command::AppendEvents(es)), Some(Outcome::AppendAll(ps))) => es@.len() == ps.len()
            && forall|k: int| 0 <= k < ps.len() ==> event_fits(#[trigger] es@[k], ps[k]),
        (Some(Command::RunPalette(s)), Some(Outcome::Palette(t))) => s@ == t,
        _ => false,
    }
}

/// The id of the active block of the day.
pub open spec fn active_block_id(day: DayModel) -> Option<u128> {
    match first_index(day.blocks, block_is_active()) {
        Some(i) => Some(day.blocks[i].id),
        None => None,
    }
}

/// The screen with another status line.
pub open spec fn with_status(v: AppView, status: Seq<char>) -> AppView {
    AppView { status, ..v }
}

/// The screen with the command line closed and emptied.
pub open spec fn command_closed(v: AppView) -> AppView {
    AppView { command_mode: false, buffer: seq![], ..v }
}

/// The selected task can be dropped or removed from here.
pub open spec fn can_modify_task(v: AppView) -> bool {
    v.pane == ActivePane::Tasks || (v.screen == CurrentScreen::Review && v.pane == ActivePane::CarryForward)
}

/// Outside the command line, for every input but a typed character.
pub open spec fn spec_dispatch(v: AppView, a: Action) -> (AppView, Option<Outcome>) {
    match a {
        Action::Quit => (v, Some(Outcome::Quit)),
        Action::Tick | Action::Resize(_, _) | Action::Backspace | Action::Char(_) => (v, None),
        Action::NextTab | Action::PrevTab => (v.next_pane(), None),
        Action::ToggleHelp => (AppView { show_help: !v.show_help, ..v }, None),
        Action::OpenCommand => (AppView { command_mode: true, buffer: seq![], ..v }, None),
        Action::Enter => (v.start_execution(), None),
        Action::Esc => (AppView { show_help: false, command_mode: false, ..v }, None),
        Action::Up => (v.scroll_up(), None),
        Action::Down => (v.scroll_down(), None),
        Action::Left | Action::Right => (v.flow_hint(), None),
        Action::SubmitCommand => (v, Some(Outcome::Palette(v.buffer))),
        Action::StartSelectedBlock => if v.pane != ActivePane::Timeline {
            (with_status(v, "select timeline to start a block"@), None)
        } else {
            match v.selected_block() {
                Some(b) => match active_block_id(v.day) {
                    Some(a) => if a != b {
                        (v, Some(Outcome::AppendAll(seq![
                            Planned::Kind(EventKind::BlockFinished { block_id: a }),
                            Planned::Kind(EventKind::BlockStarted { block_id: b }),
                        ])))
                    } else {
                        (v, Some(Outcome::AppendAll(seq![Planned::Kind(EventKind::BlockStarted { block_id: b })])))
                    },
                    None => (v, Some(Outcome::AppendAll(seq![Planned::Kind(EventKind::BlockStarted { block_id: b })]))),
                },
                None => (with_status(v, "no block selected"@), None),
            }
        },
        Action::CompleteSelectedTask => if v.pane != ActivePane::Tasks {
            (with_status(v, "select tasks to complete a task"@), None)
        } else {
            match v.selected_task() {
                Some(t) => (v, Some(Outcome::Append(Planned::Kind(EventKind::TaskCompleted { task_id: t })))),
                None => (with_status(v, "no task selected"@), None),
            }
        },
        Action::DropSelectedTask => if !can_modify_task(v) {
            (with_status(v, "select tasks to drop a task"@), None)
        } else {
            match v.selected_task() {
                Some(t) => (v, Some(Outcome::Append(Planned::Kind(EventKind::TaskDropped { task_id: t })))),
                None => (with_status(v, "no task selected"@), None),
            }
        },
        Action::RemoveSelectedTask => if !can_modify_task(v) {
            (with_status(v, "select tasks to remove a task"@), None)
        } else {
            match v.selected_task() {
                Some(t) => (v, Some(Outcome::Append(Planned::Kind(EventKind::TaskRemoved { task_id: t })))),
                None => (with_status(v, "no task selected"@), None),
            }
        },
        Action::StartNewSession => if v.screen != CurrentScreen::Review {
            (v.flow_hint(), None)
        } else if v.day.day_finished {
            (with_status(v, "day already finished"@), None)
        } else {
            (
                AppView {
                    screen: CurrentScreen::Plan,
                    pane: ActivePane::Timeline,
                    status: "new session started. plan the next block"@,
                    ..v
                },
                Some(Outcome::Append(Planned::NewSession)),
            )
        },
        Action::FinishSession => if v.screen != CurrentScreen::Execute {
            (with_status(v, "execution needs to start to be finished"@), None)
        } else {
            let v2 = AppView {
                screen: CurrentScreen::Review,
                pane: ActivePane::CarryForward,
                status: "review - finish with a clear record"@,
                ..v
            };
            let blocks: Seq<Planned> = match active_block_id(v.day) {
                Some(b) => seq![Planned::Kind(EventKind::BlockFinished { block_id: b })],
                None => seq![],
            };
            let all: Seq<Planned> = match v.day.current_session_id {
                Some(s) => blocks.push(Planned::Kind(EventKind::SessionFinished { session_id: s })),
                None => blocks,
            };
            if all.len() == 0 {
                (v2, None)
            } else {
                (v2, Some(Outcome::AppendAll(all)))
            }
        },
        Action::FinishDay => if v.screen != CurrentScreen::Review {
            (v.flow_hint(), None)
        } else {
            (with_status(v, "day finished"@), Some(Outcome::Append(Planned::Kind(EventKind::DayFinished))))
        },
        Action::ReceiveStoreResult(r) => match r {
            Ok(message) => (with_status(v, message@), None),
            Err(error) => (with_status(v, "Error: "@ + error@), None),
        },
    }
}

/// A typed character, outside the command line.
pub open spec fn spec_char(v: AppView, c: char) -> (AppView, Option<Outcome>) {
    if c == 'q' {
        (v, Some(Outcome::Quit))
    } else if c == 'a' || c == ':' {
        (AppView { command_mode: true, buffer: seq![], ..v }, None)
    } else if c == 'e' {
        (v.start_execution(), None)
    } else if c == 'p' || c == 'r' {
        (v.flow_hint(), None)
    } else if c == 't' {
        if v.screen == CurrentScreen::Execute {
            (v.start_focus(45), Some(Outcome::Append(Planned::Kind(EventKind::FocusLogged { minutes: 45 }))))
        } else {
            (with_status(v, "focus starts in execute"@), None)
        }
    } else if c == 'n' {
        spec_dispatch(v, Action::StartNewSession)
    } else if c == 'f' {
        match v.screen {
            CurrentScreen::Execute => spec_dispatch(v, Action::FinishSession),
            CurrentScreen::Review => spec_dispatch(v, Action::FinishDay),
            CurrentScreen::Plan => (v.flow_hint(), None),
        }
    } else if c == ' ' {
        if v.screen != CurrentScreen::Review { spec_dispatch(v, Action::CompleteSelectedTask) } else { (v, None) }
    } else if c == 's' {
        if v.screen != CurrentScreen::Review { spec_dispatch(v, Action::StartSelectedBlock) } else { (v, None) }
    } else if c == 'd' {
        spec_dispatch(v, Action::DropSelectedTask)
    } else if c == 'x' {
        spec_dispatch(v, Action::RemoveSelectedTask)
    } else {
        (v, None)
    }
}

/// The minutes that a focus command asks for: `focus` alone is 45; `focus N`
/// is N, or 45 where N is not a number; leading colons are ignored.
pub open spec fn spec_focus_minutes(input: Seq<char>) -> Option<u32> {
    let s = trim(trim_start_char(trim(input), ':'));
    if s == "focus"@ {
        Some(45)
    } else {
        match strip_prefix(s, "focus "@) {
            Some(rest) => match parse_u32(rest) {
                Some(m) => Some(m),
                None => Some(45),
            },
            None => None,
        }
    }
}

/// Submitting the command line.
pub open spec fn spec_submit(v: AppView) -> (AppView, Option<Outcome>) {
    let input = trim(v.buffer);
    if input == "execute"@ || input == "start"@ {
        (command_closed(v).start_execution(), None)
    } else if input == "review"@ {
        (command_closed(v).flow_hint(), None)
    } else if spec_focus_minutes(input) is Some {
        let m = spec_focus_minutes(input)->0;
        if v.screen != CurrentScreen::Execute {
            (with_status(command_closed(v), "focus starts in execute"@), None)
        } else {
            (command_closed(v).start_focus(m), Some(Outcome::Append(Planned::Kind(EventKind::FocusLogged { minutes: m }))))
        }
    } else if input == "new session"@ || input == "session new"@ {
        spec_dispatch(command_closed(v), Action::StartNewSession)
    } else if input == "finish"@ {
        match v.screen {
            CurrentScreen::Execute => spec_dispatch(command_closed(v), Action::FinishSession),
            CurrentScreen::Review => spec_dispatch(command_closed(v), Action::FinishDay),
            CurrentScreen::Plan => (command_closed(v).flow_hint(), None),
        }
    } else {
        (v, Some(Outcome::Palette(input)))
    }
}

/// Inside the command line.
pub open spec fn spec_command_mode(v: AppView, a: Action) -> (AppView, Option<Outcome>) {
    match a {
        Action::Enter | Action::SubmitCommand => spec_submit(v),
        Action::Esc => (command_closed(v), None),
        Action::Backspace => (AppView { buffer: if v.buffer.len() > 0 { v.buffer.drop_last() } else { v.buffer }, ..v }, None),
        Action::Char(c) => (AppView { buffer: v.buffer.push(c), ..v }, None),
        _ => (v, None),
    }
}

/// The screen's answer to an input: the next state and what is to be done.
pub open spec fn spec_update(v: AppView, a: Action) -> (AppView, Option<Outcome>) {
    if v.command_mode {
        spec_command_mode(v, a)
    } else {
        match a {
            Action::Char(c) => spec_char(v, c),
            _ => spec_dispatch(v, a),
        }
    }
}

/// The input starts a focus timer.
pub open spec fn starts_focus(v: AppView, a: Action) -> bool {
    if v.command_mode {
        match a {
            Action::Enter | Action::SubmitCommand => {
                let input = trim(v.buffer);
                !(input == "execute"@ || input == "start"@ || input == "review"@)
                    && spec_focus_minutes(input) is Some && v.screen == CurrentScreen::Execute
            },
            _ => false,
        }
    } else {
        a == Action::Char('t') && v.screen == CurrentScreen::Execute
    }
}

/// Answers one input: updates the screen and says what is to be done outside.
pub fn update(app: &mut AppState, action: Action) -> (cmd: Option<Command>)
    ensures
        final(app)@ == spec_update(old(app)@, action).0,
        command_fits(cmd, spec_update(old(app)@, action).1),
        if starts_focus(old(app)@, action) {
            final(app).focus_started_at is Some
        } else {
            final(app).focus_started_at == old(app).focus_started_at
        },
{
    if app.command_mode {
        return handle_command_mode(app, action);
    }
    match action {
        Action::Char(c) => handle_char_input(app, c),
        other => dispatch(app, other),
    }
}

/// The minutes that a focus command asks for.
pub fn focus_minutes_from_command(input: &str) -> (r: Option<u32>)
    ensures
        r == spec_focus_minutes(input@),
{
    let cs = chars_of(input);
    let t = trimmed(&cs);
    let u = trimmed_start_char(&t, ':');
    let s = trimmed(&u);
    if is_text(&s, "focus") {
        return Some(45);
    }
    match stripped_prefix(&s, "focus ") {
        Some(rest) => match parse_u32_chars(&rest) {
            Some(m) => Some(m),
            None => Some(45),
        },
        None => None,
    }
}

/// The selected task can be dropped or removed from here.
fn can_modify_selected_task(app: &AppState) -> (b: bool)
    ensures
        b == can_modify_task(app@),
{
    app.active_pane == ActivePane::Tasks
        || (app.current_screen == CurrentScreen::Review && app.active_pane == ActivePane::CarryForward)
}

/// The id of the active block of the day.
fn active_block_id_of(app: &AppState) -> (r: Option<u128>)
    ensures
        r == active_block_id(app@.day),
{
    match app.day.active_block() {
        Some(b) => Some(b.id),
        None => None,
    }
}

/// Closes and empties the command line.
fn close_command(app: &mut AppState)
    ensures
        final(app)@ == command_closed(old(app)@),
        final(app).focus_started_at == old(app).focus_started_at,
{
    app.command_mode = false;
    clear_string(&mut app.command_buffer);
}

/// Outside the command line, for every input but a typed character.
fn dispatch(app: &mut AppState, action: Action) -> (cmd: Option<Command>)
    requires
        !old(app).command_mode,
    ensures
        final(app)@ == spec_dispatch(old(app)@, action).0,
        command_fits(cmd, spec_dispatch(old(app)@, action).1),
        final(app).focus_started_at == old(app).focus_started_at,
{
    match action {
        Action::Quit => Some(Command::Quit),
        Action::Tick | Action::Resize(_, _) | Action::Backspace | Action::Char(_) => None,
        Action::NextTab | Action::PrevTab => {
            app.next_pane();
            None
        },
        Action::ToggleHelp => {
            app.show_help = !app.show_help;
            None
        },
        Action::OpenCommand => {
            app.command_mode = true;
            clear_string(&mut app.command_buffer);
            None
        },
        Action::Enter => {
            app.start_execution();
            None
        },
        Action::Esc => {
            app.show_help = false;
            app.command_mode = false;
            None
        },
        Action::Up => {
            app.scroll_up();
            None
        },
        Action::Down => {
            app.scroll_down();
            None
        },
        Action::Left | Action::Right => {
            app.flow_hint();
            None
        },
        Action::SubmitCommand => Some(Command::RunPalette(app.command_buffer.clone())),
        Action::StartSelectedBlock => start_selected_block(app),
        Action::CompleteSelectedTask => {
            if app.active_pane != ActivePane::Tasks {
                app.status_message = owned("select tasks to complete a task");
                return None;
            }
            match app.selected_task_id() {
                Some(task_id) => Some(Command::AppendEvent(Event::new(EventKind::TaskCompleted { task_id }))),
                None => {
                    app.status_message = owned("no task selected");
                    None
                },
            }
        },
        Action::DropSelectedTask => {
            if !can_modify_selected_task(app) {
                app.status_message = owned("select tasks to drop a task");
                return None;
            }
            match app.selected_task_id() {
                Some(task_id) => Some(Command::AppendEvent(Event::new(EventKind::TaskDropped { task_id }))),
                None => {
                    app.status_message = owned("no task selected");
                    None
                },
            }
        },
        Action::RemoveSelectedTask => {
            if !can_modify_selected_task(app) {
                app.status_message = owned("select tasks to remove a task");
                return None;
            }
            match app.selected_task_id() {
                Some(task_id) => Some(Command::AppendEvent(Event::new(EventKind::TaskRemoved { task_id }))),
                None => {
                    app.status_message = owned("no task selected");
                    None
                },
            }
        },
        Action::StartNewSession => start_new_session(app),
        Action::FinishSession => finish_session(app),
        Action::FinishDay => {
            if app.current_screen != CurrentScreen::Review {
                app.flow_hint();
                return None;
            }
            app.status_message = owned("day finished");
            Some(Command::AppendEvent(Event::new(EventKind::DayFinished)))
        },
        Action::ReceiveStoreResult(result) => {
            match result {
                Ok(message) => {
                    app.status_message = message;
                },
                Err(error) => {
                    let e = chars_of(error.as_str());
                    app.status_message = concat_text("Error: ", &e);
                },
            }
            None
        },
    }
}

/// Starts the selected block, finishing the active one first.
fn start_selected_block(app: &mut AppState) -> (cmd: Option<Command>)
    requires
        !old(app).command_mode,
    ensures
        final(app)@ == spec_dispatch(old(app)@, Action::StartSelectedBlock).0,
        command_fits(cmd, spec_dispatch(old(app)@, Action::StartSelectedBlock).1),
        final(app).focus_started_at == old(app).focus_started_at,
{
    if app.active_pane != ActivePane::Timeline {
        app.status_message = owned("select timeline to start a block");
        return None;
    }
    match app.selected_block_id() {
        Some(block_id) => {
            let mut events: Vec<Event> = Vec::new();
            match active_block_id_of(app) {
                Some(active_id) => {
                    if active_id != block_id {
                        events.push(Event::new(EventKind::BlockFinished { block_id: active_id }));
                    }
                },
                None => {},
            }
            events.push(Event::new(EventKind::BlockStarted { block_id }));
            Some(Command::AppendEvents(events))
        },
        None => {
            app.status_message = owned("no block selected");
            None
        },
    }
}

/// Starts a new session from review, unless the day is finished.
fn start_new_session(app: &mut AppState) -> (cmd: Option<Command>)
    requires
        !old(app).command_mode,
    ensures
        final(app)@ == spec_dispatch(old(app)@, Action::StartNewSession).0,
        command_fits(cmd, spec_dispatch(old(app)@, Action::StartNewSession).1),
        final(app).focus_started_at == old(app).focus_started_at,
{
    if app.current_screen != CurrentScreen::Review {
        app.flow_hint();
        return None;
    }
    if app.day.day_finished {
        app.status_message = owned("day already finished");
        return None;
    }
    app.current_screen = CurrentScreen::Plan;
    app.active_pane = ActivePane::Timeline;
    app.status_message = owned("new session started. plan the next block");
    Some(Command::AppendEvent(Event::new(EventKind::SessionStarted { session_id: fresh_id() })))
}

/// Moves from execute to review, finishing the active block and the session.
fn finish_session(app: &mut AppState) -> (cmd: Option<Command>)
    requires
        !old(app).command_mode,
    ensures
        final(app)@ == spec_dispatch(old(app)@, Action::FinishSession).0,
        command_fits(cmd, spec_dispatch(old(app)@, Action::FinishSession).1),
        final(app).focus_started_at == old(app).focus_started_at,
{
    if app.current_screen != CurrentScreen::Execute {
        app.status_message = owned("execution needs to start to be finished");
        return None;
    }
    let ghost v = app@;
    app.current_screen = CurrentScreen::Review;
    app.active_pane = ActivePane::CarryForward;
    app.status_message = owned("review - finish with a clear record");
    let mut events: Vec<Event> = Vec::new();
    let ghost mut planned: Seq<Planned> = seq![];
    match active_block_id_of(app) {
        Some(block_id) => {
            events.push(Event::new(EventKind::BlockFinished { block_id }));
            proof { planned = seq![Planned::Kind(EventKind::BlockFinished { block_id })]; }
        },
        None => {},
    }
    match app.day.current_session_id {
        Some(session_id) => {
            events.push(Event::new(EventKind::SessionFinished { session_id }));
            proof { planned = planned.push(Planned::Kind(EventKind::SessionFinished { session_id })); }
        },
        None => {},
    }
    assert(events.len() > 0 ==> spec_dispatch(v, Action::FinishSession).1 == Some(Outcome::AppendAll(planned)));
    if events.len() == 0 {
        return None;
    }
    Some(Command::AppendEvents(events))
}

/// A typed character, outside the command line.
fn handle_char_input(app: &mut AppState, c: char) -> (cmd: Option<Command>)
    requires
        !old(app).command_mode,
    ensures
        final(app)@ == spec_char(old(app)@, c).0,
        command_fits(cmd, spec_char(old(app)@, c).1),
        if c == 't' && old(app)@.screen == CurrentScreen::Execute {
            final(app).focus_started_at is Some
        } else {
            final(app).focus_started_at == old(app).focus_started_at
        },
{
    if c == 'q' {
        Some(Command::Quit)
    } else if c == 'a' || c == ':' {
        app.command_mode = true;
        clear_string(&mut app.command_buffer);
        None
    } else if c == 'e' {
        app.start_execution();
        None
    } else if c == 'p' || c == 'r' {
        app.flow_hint();
        None
    } else if c == 't' {
        if app.current_screen == CurrentScreen::Execute {
            app.start_focus(45);
            return Some(Command::AppendEvent(Event::new(EventKind::FocusLogged { minutes: 45 })));
        }
        app.status_message = owned("focus starts in execute");
        None
    } else if c == 'n' {
        dispatch(app, Action::StartNewSession)
    } else if c == 'f' {
        match app.current_screen {
            CurrentScreen::Execute => dispatch(app, Action::FinishSession),
            CurrentScreen::Review => dispatch(app, Action::FinishDay),
            CurrentScreen::Plan => {
                app.flow_hint();
                None
            },
        }
    } else if c == ' ' {
        if app.current_screen != CurrentScreen::Review {
            dispatch(app, Action::CompleteSelectedTask)
        } else {
            None
        }
    } else if c == 's' {
        if app.current_screen != CurrentScreen::Review {
            dispatch(app, Action::StartSelectedBlock)
        } else {
            None
        }
    } else if c == 'd' {
        dispatch(app, Action::DropSelectedTask)
    } else if c == 'x' {
        dispatch(app, Action::RemoveSelectedTask)
    } else {
        None
    }
}

/// Inside the command line.
fn handle_command_mode(app: &mut AppState, action: Action) -> (cmd: Option<Command>)
    requires
        old(app).command_mode,
    ensures
        final(app)@ == spec_command_mode(old(app)@, action).0,
        command_fits(cmd, spec_command_mode(old(app)@, action).1),
        if starts_focus(old(app)@, action) {
            final(app).focus_started_at is Some
        } else {
            final(app).focus_started_at == old(app).focus_started_at
        },
{
    match action {
        Action::Enter | Action::SubmitCommand => submit_command(app),
        Action::Esc => {
            close_command(app);
            None
        },
        Action::Backspace => {
            pop_char(&mut app.command_buffer);
            None
        },
        Action::Char(c) => {
            push_char(&mut app.command_buffer, c);
            None
        },
        _ => None,
    }
}

/// Submits the command line: the screen's own commands act here; any other
/// text goes to the palette.
fn submit_command(app: &mut AppState) -> (cmd: Option<Command>)
    requires
        old(app).command_mode,
    ensures
        final(app)@ == spec_submit(old(app)@).0,
        command_fits(cmd, spec_submit(old(app)@).1),
        if starts_focus(old(app)@, Action::Enter) {
            final(app).focus_started_at is Some
        } else {
            final(app).focus_started_at == old(app).focus_started_at
        },
{
    let buffer = chars_of(app.command_buffer.as_str());
    let input = trimmed(&buffer);
    if is_text(&input, "execute") || is_text(&input, "start") {
        close_command(app);
        app.start_execution();
        return None;
    }
    if is_text(&input, "review") {
        close_command(app);
        app.flow_hint();
        return None;
    }
    let input_text = string_of(input.as_slice());
    match focus_minutes_from_command(input_text.as_str()) {
        Some(minutes) => {
            close_command(app);
            if app.current_screen != CurrentScreen::Execute {
                app.status_message = owned("focus starts in execute");
                return None;
            }
            app.start_focus(minutes);
            return Some(Command::AppendEvent(Event::new(EventKind::FocusLogged { minutes })));
        },
        None => {},
    }
    if is_text(&input, "new session") || is_text(&input, "session new") {
        close_command(app);
        return dispatch(app, Action::StartNewSession);
    }
    if is_text(&input, "finish") {
        close_command(app);
        return match app.current_screen {
            CurrentScreen::Execute => dispatch(app, Action::FinishSession),
            CurrentScreen::Review => dispatch(app, Action::FinishDay),
            CurrentScreen::Plan => {
                app.flow_hint();
                None
            },
        };
    }
    Some(Command::RunPalette(input_text))
}

} // verus!
