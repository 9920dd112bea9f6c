//! The event log, and the decisions that turn requests into events: what the
//! command palette and the command line append, and what they answer.
use vstd::prelude::*;

use crate::models::{text_opt_view, active_order, event_opt_fits, first_index, DayModel, DayState, Event, EventKind, Planned, TimingPlan, BlockTiming, Block, Task};
use crate::text::{
    all_digits, char_is_digit, chars_of, concat_text, decimal, decimal_chars, digit_value, digits_value, extend_chars,
    is_digit, is_text, join_from, join_spaced, lemma_digits_value_step, lowercase, occurs, occurs_in, owned,
    parse_u32, parse_u32_chars, parse_usize, parse_usize_chars, split_words, string_of, strip_prefix, stripped_prefix,
    to_lowercase, trim, trim_start_char, trimmed, trimmed_start_char, words,
};
use crate::clock::fresh_id;

verus! {

/// The text reads as a clock time: at most two digits, a colon, two digits.
pub open spec fn spec_looks_like_time(s: Seq<char>) -> bool {
    &&& 3 <= s.len() <= 5
    &&& s[s.len() - 3] == ':'
    &&& all_digits(s.take(s.len() - 3))
    &&& all_digits(s.skip(s.len() - 2))
}

/// The minute of the day that a clock time names (hours times sixty plus minutes).
pub open spec fn spec_time_minutes(s: Seq<char>) -> nat {
    digits_value(s.take(s.len() - 3)) * 60 + digits_value(s.skip(s.len() - 2))
}

/// A clock time names a minute below 10000.
pub proof fn lemma_time_minutes_small(s: Seq<char>)
    requires
        spec_looks_like_time(s),
    ensures
        spec_time_minutes(s) < 10000,
{
    let h = s.take(s.len() - 3);
    let m = s.skip(s.len() - 2);
    lemma_two_digits_bound(h);
    lemma_two_digits_bound(m);
}

/// At most two digits are worth less than a hundred.
proof fn lemma_two_digits_bound(s: Seq<char>)
    requires
        s.len() <= 2,
        all_digits(s),
    ensures
        digits_value(s) < 100,
{
    if s.len() > 0 {
        let a = s.drop_last();
        assert(is_digit(s.last()));
        assert(digit_value(s.last()) <= 9);
        assert(digits_value(s) == digits_value(a) * 10 + digit_value(s.last()));
        if a.len() > 0 {
            assert(is_digit(a.last())) by {
                assert(a.last() == s[s.len() - 2]);
            }
            assert(digit_value(a.last()) <= 9);
            assert(digits_value(a) == digits_value(a.drop_last()) * 10 + digit_value(a.last()));
            assert(a.drop_last().len() == 0);
            assert(digits_value(a.drop_last()) == 0);
        } else {
            assert(digits_value(a) == 0);
        }
    }
}

/// `value` reads as a clock time: at most two digits, a colon, two digits.
pub fn looks_like_time(value: &str) -> (b: bool)
    ensures
        b == spec_looks_like_time(value@),
{
    let s = chars_of(value);
    let n = s.len();
    if n < 3 || n > 5 || s[n - 3] != ':' {
        return false;
    }
    let mut i: usize = 0;
    while i < n
        invariant
            3 <= n <= 5,
            n == s@.len(),
            s@ == value@,
            i <= n,
            forall|k: int| 0 <= k < i && k != n - 3 ==> is_digit(#[trigger] s@[k]),
        decreases n - i,
    {
        if i != n - 3 && !char_is_digit(s[i]) {
            if i < n - 3 {
                assert(!all_digits(s@.take(n - 3))) by {
                    assert(s@.take(n - 3)[i as int] == s@[i as int]);
                }
            } else {
                assert(!all_digits(s@.skip(n - 2))) by {
                    assert(s@.skip(n - 2)[i - (n - 2)] == s@[i as int]);
                }
            }
            return false;
        }
        i = i + 1;
    }
    assert(all_digits(s@.take(n - 3))) by {
        assert forall|k: int| 0 <= k < n - 3 implies is_digit(#[trigger] s@.take(n - 3)[k]) by {
            assert(s@.take(n - 3)[k] == s@[k]);
        }
    }
    assert(all_digits(s@.skip(n - 2))) by {
        assert forall|k: int| 0 <= k < 2 implies is_digit(#[trigger] s@.skip(n - 2)[k]) by {
            assert(s@.skip(n - 2)[k] == s@[k + n - 2]);
        }
    }
    true
}

/// The minute of the day that a clock time names.
pub fn time_minutes(s: &Vec<char>) -> (m: u32)
    requires
        spec_looks_like_time(s@),
    ensures
        m == spec_time_minutes(s@),
{
    proof { lemma_time_minutes_small(s@); }
    let n = s.len();
    let ghost h = s@.take(n - 3);
    let mut hour: u32 = 0;
    let mut i: usize = 0;
    assert(h.take(0) =~= Seq::<char>::empty());
    while i < n - 3
        invariant
            3 <= n <= 5,
            n == s@.len(),
            h == s@.take(n - 3),
            all_digits(h),
            i <= n - 3,
            hour == digits_value(h.take(i as int)),
            hour < 100,
        decreases n - 3 - i,
    {
        proof {
            lemma_digits_value_step(h, i as int);
            lemma_two_digits_bound(h.take(i as int + 1));
            assert(is_digit(h[i as int]));
        }
        let d = (s[i] as u32) - ('0' as u32);
        hour = hour * 10 + d;
        i = i + 1;
    }
    assert(h.take(n - 3) =~= h);
    let ghost m = s@.skip(n - 2);
    assert(is_digit(m[0]) && is_digit(m[1]));
    assert(m.last() == s@[n - 1]);
    assert(m.drop_last().last() == s@[n - 2]);
    assert(digits_value(m) == digits_value(m.drop_last()) * 10 + digit_value(m.last()));
    assert(digits_value(m.drop_last()) == digits_value(m.drop_last().drop_last()) * 10 + digit_value(m.drop_last().last()));
    assert(m.drop_last().drop_last().len() == 0);
    assert(digits_value(m.drop_last().drop_last()) == 0);
    let tens = (s[n - 2] as u32) - ('0' as u32);
    let ones = (s[n - 1] as u32) - ('0' as u32);
    hour * 60 + tens * 10 + ones
}

/// `std::path::PathBuf`, carried through unread.
#[verifier::external_type_specification]
#[verifier::external_body]
pub struct ExPathBuf(std::path::PathBuf);

/// The append-only log of the day's events, one JSON object per line of the
/// file at `path`.
#[derive(Debug)]
pub struct EventStore {
    pub path: std::path::PathBuf,
}

/// What a palette command appends, if anything, and its answer.
#[derive(Debug)]
pub struct PaletteReply {
    pub event: Option<Event>,
    pub message: String,
}

// ---------------------------------------------------------------------------
// Specifications
// ---------------------------------------------------------------------------

/// The loose label that a lower-cased word names: `now`, `next` or `later`.
pub open spec fn label_of_lowercase(lowered: Seq<char>) -> Option<Seq<char>> {
    if lowered == "now"@ || lowered == "next"@ || lowered == "later"@ {
        Some(lowered)
    } else {
        None
    }
}

/// The loose label that a word names, in any case.
pub open spec fn spec_loose_label(value: Seq<char>) -> Option<Seq<char>> {
    label_of_lowercase(lowercase(value))
}

/// A new task, unless its title is blank.
pub open spec fn task_plan(title: Seq<char>, priority: bool) -> Option<Planned> {
    if trim(title).len() == 0 {
        None
    } else {
        Some(Planned::NewTask { title, priority })
    }
}

/// A new block, at `at` or else `Later`, unless its title is blank.
pub open spec fn block_plan(title: Seq<char>, at: Option<Seq<char>>) -> Option<Planned> {
    if trim(title).len() == 0 {
        None
    } else {
        Some(Planned::NewBlock {
            title,
            timing: match at {
                Some(start) => TimingPlan::Exact { start, end: None },
                None => TimingPlan::Loose { label: "Later"@ },
            },
        })
    }
}

/// A new note, unless it is blank.
pub open spec fn note_plan(text: Seq<char>) -> Option<Planned> {
    if trim(text).len() == 0 {
        None
    } else {
        Some(Planned::NewNote { text })
    }
}

/// The block that `add block REST` adds: a loose label or one or two clock
/// times may lead the title; otherwise all of `rest` is the title, for later.
pub open spec fn palette_block_plan(rest: Seq<char>) -> Option<Planned> {
    let parts = words(rest);
    if parts.len() == 0 {
        None
    } else if spec_loose_label(parts[0]) is Some {
        let title = join_spaced(parts.skip(1));
        if trim(title).len() == 0 {
            None
        } else {
            Some(Planned::NewBlock { title, timing: TimingPlan::Loose { label: spec_loose_label(parts[0])->0 } })
        }
    } else if spec_looks_like_time(parts[0]) {
        let second = parts.len() > 1 && spec_looks_like_time(parts[1]);
        let title = join_spaced(parts.skip(if second { 2 } else { 1 }));
        if trim(title).len() == 0 {
            None
        } else {
            Some(Planned::NewBlock {
                title,
                timing: TimingPlan::Exact { start: parts[0], end: if second { Some(parts[1]) } else { None } },
            })
        }
    } else {
        block_plan(rest, None)
    }
}

/// The first text among `hays` that contains `needle`.
pub open spec fn first_containing_spec(hays: Seq<Seq<char>>, needle: Seq<char>) -> Option<int> {
    first_index(hays, |h: Seq<char>| occurs_in(h, needle))
}

/// The block that `start QUERY` starts: the first block, in list order, whose
/// title contains the query, both compared in lower case.
pub open spec fn block_for_query(day: DayModel, query: Seq<char>) -> Option<u128> {
    let titles = day.blocks.map_values(|b: Block| lowercase(b.title@));
    match first_containing_spec(titles, lowercase(trim(query))) {
        Some(i) => Some(day.blocks[i].id),
        None => None,
    }
}

/// The open tasks in the order the task list shows them.
pub open spec fn listed_tasks(day: DayModel) -> Seq<Task> {
    active_order(day.tasks).map_values(|i: usize| day.tasks[i as int])
}

/// The open task that a reference names: a number counts from one along the
/// task list (`0` names the first); any other text is looked up in the titles,
/// both compared in lower case.
pub open spec fn task_for_reference(day: DayModel, task_ref: Seq<char>) -> Option<u128> {
    let r = trim(task_ref);
    let tasks = listed_tasks(day);
    match parse_usize(r) {
        Some(n) => {
            let k = if n == 0 { 0 } else { n - 1 };
            if k < tasks.len() { Some(tasks[k].id) } else { None }
        },
        None => match first_containing_spec(tasks.map_values(|t: Task| lowercase(t.title@)), lowercase(r)) {
            Some(i) => Some(tasks[i].id),
            None => None,
        },
    }
}

/// The session to start: one, unless a session runs or the day is finished.
pub open spec fn session_start_plan(day: DayModel) -> Option<Planned> {
    if day.current_session_id is None && !day.day_finished {
        Some(Planned::NewSession)
    } else {
        None
    }
}

/// The session to finish: the current one.
pub open spec fn session_finish_plan(day: DayModel) -> Option<Planned> {
    match day.current_session_id {
        Some(s) => Some(Planned::Kind(EventKind::SessionFinished { session_id: s })),
        None => None,
    }
}

/// A palette answer that names a task or block event, or says nothing matched.
pub open spec fn found_or(id: Option<u128>, kind: spec_fn(u128) -> EventKind, found: Seq<char>, missing: Seq<char>) -> (Option<Planned>, Seq<char>) {
    match id {
        Some(i) => (Some(Planned::Kind(kind(i))), found),
        None => (None, missing),
    }
}

/// What a palette command does to the day, and its answer. Surrounding white
/// space and leading colons are ignored.
pub open spec fn palette_plan(day: DayModel, raw: Seq<char>) -> (Option<Planned>, Seq<char>) {
    let input = trim(trim_start_char(trim(raw), ':'));
    if input.len() == 0 {
        (None, "No command"@)
    } else if strip_prefix(input, "add priority task "@) is Some {
        (task_plan(strip_prefix(input, "add priority task "@)->0, true), "Priority task added"@)
    } else if strip_prefix(input, "add task "@) is Some {
        (task_plan(strip_prefix(input, "add task "@)->0, false), "Task added"@)
    } else if strip_prefix(input, "add block "@) is Some {
        (palette_block_plan(strip_prefix(input, "add block "@)->0), "Block added"@)
    } else if strip_prefix(input, "note "@) is Some {
        (note_plan(strip_prefix(input, "note "@)->0), "Note added"@)
    } else if strip_prefix(input, "focus "@) is Some {
        let m: u32 = match parse_u32(strip_prefix(input, "focus "@)->0) {
            Some(m) => m,
            None => 45,
        };
        (Some(Planned::Kind(EventKind::FocusLogged { minutes: m })), "Focus logged: "@ + decimal(m as nat) + "m"@)
    } else if strip_prefix(input, "start "@) is Some {
        let q = strip_prefix(input, "start "@)->0;
        found_or(block_for_query(day, q), |b: u128| EventKind::BlockStarted { block_id: b }, "Block started"@, "No block matched: "@ + q)
    } else if strip_prefix(input, "drop task "@) is Some {
        let r = strip_prefix(input, "drop task "@)->0;
        found_or(task_for_reference(day, r), |t: u128| EventKind::TaskDropped { task_id: t }, "Task dropped"@, "No active task matched: "@ + r)
    } else if strip_prefix(input, "remove task "@) is Some {
        let r = strip_prefix(input, "remove task "@)->0;
        found_or(task_for_reference(day, r), |t: u128| EventKind::TaskRemoved { task_id: t }, "Task removed"@, "No active task matched: "@ + r)
    } else if strip_prefix(input, "done task "@) is Some {
        let r = strip_prefix(input, "done task "@)->0;
        found_or(task_for_reference(day, r), |t: u128| EventKind::TaskCompleted { task_id: t }, "Task completed"@, "No active task matched: "@ + r)
    } else if input == "finish"@ {
        (session_finish_plan(day), "Session finished"@)
    } else if input == "review"@ {
        (None, "finish execution. then review."@)
    } else {
        (None, "Unknown command: "@ + input)
    }
}

// ---------------------------------------------------------------------------
// Decisions
// ---------------------------------------------------------------------------

/// The loose label that an already lower-cased word names.
pub fn loose_label_from_lowercase(lowered: &str) -> (r: Option<String>)
    ensures
        r matches Some(l) ==> label_of_lowercase(lowered@) == Some(l@),
        r is None ==> label_of_lowercase(lowered@) is None,
{
    let cs = chars_of(lowered);
    if is_text(&cs, "now") || is_text(&cs, "next") || is_text(&cs, "later") {
        Some(string_of(cs.as_slice()))
    } else {
        None
    }
}

/// The loose label that a word names, in lower case.
pub fn loose_label(value: &str) -> (r: Option<String>)
    ensures
        r matches Some(l) ==> spec_loose_label(value@) == Some(l@),
        r is None ==> spec_loose_label(value@) is None,
{
    let lowered = to_lowercase(value);
    loose_label_from_lowercase(lowered.as_str())
}

/// Adds a task, unless its title is blank.
pub fn task_event(title: String, priority: bool) -> (e: Option<Event>)
    ensures
        event_opt_fits(e, task_plan(title@, priority)),
{
    let cs = chars_of(title.as_str());
    if trimmed(&cs).len() == 0 {
        return None;
    }
    Some(Event::new(EventKind::TaskAdded { task_id: fresh_id(), title, priority }))
}

/// Adds a block at `at`, or else for later, unless its title is blank.
pub fn block_event(title: String, at: Option<String>) -> (e: Option<Event>)
    ensures
        event_opt_fits(e, block_plan(title@, text_opt_view(at))),
{
    let cs = chars_of(title.as_str());
    if trimmed(&cs).len() == 0 {
        return None;
    }
    let timing = match at {
        Some(start) => BlockTiming::Exact { start, end: None },
        None => BlockTiming::Loose { label: owned("Later") },
    };
    Some(Event::new(EventKind::BlockAdded { block_id: fresh_id(), title, intent: None, timing }))
}

/// Adds a note, unless it is blank.
pub fn note_event(text: String) -> (e: Option<Event>)
    ensures
        event_opt_fits(e, note_plan(text@)),
{
    let cs = chars_of(text.as_str());
    if trimmed(&cs).len() == 0 {
        return None;
    }
    Some(Event::new(EventKind::NoteAdded { note_id: fresh_id(), text }))
}

/// Starts a session, unless one runs or the day is finished.
pub fn session_start_event(day: &DayState) -> (e: Option<Event>)
    ensures
        event_opt_fits(e, session_start_plan(day@)),
{
    if day.current_session_id.is_none() && !day.day_finished {
        Some(Event::new(EventKind::SessionStarted { session_id: fresh_id() }))
    } else {
        None
    }
}

/// Finishes the current session, if there is one.
pub fn session_finish_event(day: &DayState) -> (e: Option<Event>)
    ensures
        event_opt_fits(e, session_finish_plan(day@)),
{
    match day.current_session_id {
        Some(session_id) => Some(Event::new(EventKind::SessionFinished { session_id })),
        None => None,
    }
}

/// The block that `add block REST` adds.
pub fn palette_block_event(rest: &str) -> (e: Option<Event>)
    ensures
        event_opt_fits(e, palette_block_plan(rest@)),
{
    let cs = chars_of(rest);
    let parts = split_words(&cs);
    let ghost pv = parts@.map_values(|w: Vec<char>| w@);
    assert(pv == words(rest@));
    if parts.len() == 0 {
        return None;
    }
    assert(pv[0] == parts@[0]@);
    let first = string_of(parts[0].as_slice());
    match loose_label(first.as_str()) {
        Some(label) => {
            let title_cs = join_from(&parts, 1);
            if trimmed(&title_cs).len() == 0 {
                return None;
            }
            let title = string_of(title_cs.as_slice());
            return Some(Event::new(EventKind::BlockAdded {
                block_id: fresh_id(),
                title,
                intent: None,
                timing: BlockTiming::Loose { label },
            }));
        },
        None => {},
    }
    if looks_like_time(first.as_str()) {
        let second_is_time = if parts.len() > 1 {
            let second = string_of(parts[1].as_slice());
            assert(pv[1] == parts@[1]@);
            looks_like_time(second.as_str())
        } else {
            false
        };
        let end = if second_is_time {
            Some(string_of(parts[1].as_slice()))
        } else {
            None
        };
        let title_start: usize = if second_is_time { 2 } else { 1 };
        let title_cs = join_from(&parts, title_start);
        if trimmed(&title_cs).len() == 0 {
            return None;
        }
        let title = string_of(title_cs.as_slice());
        return Some(Event::new(EventKind::BlockAdded {
            block_id: fresh_id(),
            title,
            intent: None,
            timing: BlockTiming::Exact { start: first, end },
        }));
    }
    block_event(owned(rest), None)
}

/// The position of the first text among `hays` that contains `needle`.
pub fn first_containing(hays: &Vec<Vec<char>>, needle: &Vec<char>) -> (r: Option<usize>)
    ensures
        r matches Some(i) ==> i < hays.len() && first_containing_spec(hays@.map_values(|h: Vec<char>| h@), needle@) == Some(i as int),
        r is None ==> first_containing_spec(hays@.map_values(|h: Vec<char>| h@), needle@) is None,
{
    let ghost hv = hays@.map_values(|h: Vec<char>| h@);
    let ghost p = |h: Seq<char>| occurs_in(h, needle@);
    let mut i: usize = 0;
    while i < hays.len()
        invariant
            i <= hays.len(),
            hv == hays@.map_values(|h: Vec<char>| h@),
            p == (|h: Seq<char>| occurs_in(h, needle@)),
            forall|j: int| 0 <= j < i ==> !p(hv[j]),
        decreases hays.len() - i,
    {
        if occurs(&hays[i], needle) {
            proof { crate::models::lemma_first_index_is(hv, p, i as int); }
            return Some(i);
        }
        i = i + 1;
    }
    proof { crate::models::lemma_first_index_none(hv, p); }
    None
}

/// The lower-cased characters of a text.
fn lowered_chars(s: &str) -> (r: Vec<char>)
    ensures
        r@ == lowercase(s@),
{
    let l = to_lowercase(s);
    chars_of(l.as_str())
}

/// The id of the block that `start QUERY` starts.
pub fn block_to_start(day: &DayState, query: &str) -> (r: Option<u128>)
    ensures
        r == block_for_query(day@, query@),
{
    let q = trimmed(&chars_of(query));
    let needle = lowered_chars(string_of(q.as_slice()).as_str());
    let mut titles: Vec<Vec<char>> = Vec::new();
    let mut i: usize = 0;
    while i < day.blocks.len()
        invariant
            i <= day.blocks.len(),
            titles.len() == i,
            forall|m: int| 0 <= m < i ==> (#[trigger] titles@[m])@ == lowercase(day.blocks@[m].title@),
        decreases day.blocks.len() - i,
    {
        titles.push(lowered_chars(day.blocks[i].title.as_str()));
        i = i + 1;
    }
    assert(titles@.map_values(|h: Vec<char>| h@) =~= day.blocks@.map_values(|b: Block| lowercase(b.title@)));
    match first_containing(&titles, &needle) {
        Some(k) => Some(day.blocks[k].id),
        None => None,
    }
}

/// The id of the open task that a reference names.
pub fn find_active_task(day: &DayState, task_ref: &str) -> (r: Option<u128>)
    ensures
        r == task_for_reference(day@, task_ref@),
{
    let tasks = day.active_tasks();
    let r = trimmed(&chars_of(task_ref));
    match parse_usize_chars(&r) {
        Some(n) => {
            let k = if n == 0 { 0 } else { n - 1 };
            if k < tasks.len() {
                return Some(tasks[k].id);
            }
            return None;
        },
        None => {},
    }
    task_by_title(&tasks, &r, Ghost(day@))
}

/// The id of the first listed task whose title contains the reference, both
/// in lower case.
fn task_by_title(tasks: &Vec<&Task>, r: &Vec<char>, day: Ghost<DayModel>) -> (id: Option<u128>)
    requires
        crate::models::refs_are(tasks@, listed_tasks(day@)),
    ensures
        id == match first_containing_spec(listed_tasks(day@).map_values(|t: Task| lowercase(t.title@)), lowercase(r@)) {
            Some(i) => Some(listed_tasks(day@)[i].id),
            None => None,
        },
{
    let ghost listed = listed_tasks(day@);
    let needle = lowered_chars(string_of(r.as_slice()).as_str());
    let mut titles: Vec<Vec<char>> = Vec::new();
    let mut i: usize = 0;
    while i < tasks.len()
        invariant
            i <= tasks.len() == listed.len(),
            forall|m: int| 0 <= m < tasks.len() ==> *tasks@[m] == listed[m],
            titles.len() == i,
            forall|m: int| 0 <= m < i ==> (#[trigger] titles@[m])@ == lowercase(listed[m].title@),
        decreases tasks.len() - i,
    {
        titles.push(lowered_chars(tasks[i].title.as_str()));
        i = i + 1;
    }
    assert(titles@.map_values(|h: Vec<char>| h@) =~= listed.map_values(|t: Task| lowercase(t.title@)));
    match first_containing(&titles, &needle) {
        Some(k) => Some(tasks[k].id),
        None => None,
    }
}

/// A reply with an answer and maybe an event.
fn reply(event: Option<Event>, message: String) -> (r: PaletteReply)
    ensures
        r.event == event,
        r.message == message,
{
    PaletteReply { event, message }
}

/// Runs a palette command against the day: what it appends, and its answer.
pub fn palette_command(day: &DayState, raw: &str) -> (r: PaletteReply)
    ensures
        event_opt_fits(r.event, palette_plan(day@, raw@).0),
        r.message@ == palette_plan(day@, raw@).1,
{
    let input = trimmed(&trimmed_start_char(&trimmed(&chars_of(raw)), ':'));
    if input.len() == 0 {
        return reply(None, owned("No command"));
    }
    match stripped_prefix(&input, "add priority task ") {
        Some(title) => return reply(task_event(string_of(title.as_slice()), true), owned("Priority task added")),
        None => {},
    }
    match stripped_prefix(&input, "add task ") {
        Some(title) => return reply(task_event(string_of(title.as_slice()), false), owned("Task added")),
        None => {},
    }
    match stripped_prefix(&input, "add block ") {
        Some(rest) => return reply(palette_block_event(string_of(rest.as_slice()).as_str()), owned("Block added")),
        None => {},
    }
    match stripped_prefix(&input, "note ") {
        Some(text) => return reply(note_event(string_of(text.as_slice())), owned("Note added")),
        None => {},
    }
    match stripped_prefix(&input, "focus ") {
        Some(rest) => {
            let minutes = match parse_u32_chars(&rest) {
                Some(m) => m,
                None => 45,
            };
            let mut msg = chars_of("Focus logged: ");
            extend_chars(&mut msg, &decimal_chars(minutes as u64));
            extend_chars(&mut msg, &chars_of("m"));
            return reply(Some(Event::new(EventKind::FocusLogged { minutes })), string_of(msg.as_slice()));
        },
        None => {},
    }
    match stripped_prefix(&input, "start ") {
        Some(query) => {
            return match block_to_start(day, string_of(query.as_slice()).as_str()) {
                Some(block_id) => reply(Some(Event::new(EventKind::BlockStarted { block_id })), owned("Block started")),
                None => reply(None, concat_text("No block matched: ", &query)),
            };
        },
        None => {},
    }
    match stripped_prefix(&input, "drop task ") {
        Some(task_ref) => {
            return match find_active_task(day, string_of(task_ref.as_slice()).as_str()) {
                Some(task_id) => reply(Some(Event::new(EventKind::TaskDropped { task_id })), owned("Task dropped")),
                None => reply(None, concat_text("No active task matched: ", &task_ref)),
            };
        },
        None => {},
    }
    match stripped_prefix(&input, "remove task ") {
        Some(task_ref) => {
            return match find_active_task(day, string_of(task_ref.as_slice()).as_str()) {
                Some(task_id) => reply(Some(Event::new(EventKind::TaskRemoved { task_id })), owned("Task removed")),
                None => reply(None, concat_text("No active task matched: ", &task_ref)),
            };
        },
        None => {},
    }
    match stripped_prefix(&input, "done task ") {
        Some(task_ref) => {
            return match find_active_task(day, string_of(task_ref.as_slice()).as_str()) {
                Some(task_id) => reply(Some(Event::new(EventKind::TaskCompleted { task_id })), owned("Task completed")),
                None => reply(None, concat_text("No active task matched: ", &task_ref)),
            };
        },
        None => {},
    }
    if is_text(&input, "finish") {
        return reply(session_finish_event(day), owned("Session finished"));
    }
    if is_text(&input, "review") {
        return reply(None, owned("finish execution. then review."));
    }
    reply(None, concat_text("Unknown command: ", &input))
}

} // verus!
