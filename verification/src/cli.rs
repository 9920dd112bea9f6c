//! The command line: `task`, `block`, `note`, `review` and `finish`.
use vstd::prelude::*;

use crate::models::text_opt_view;
use crate::text::{chars_of, is_text, join_from, join_spaced, string_of};

verus! {

/// What the command line asks for.
#[derive(Debug, PartialEq, Eq)]
pub enum CliCommand {
    /// `task [--priority] TITLE...`
    Task { title: String, priority: bool },
    /// `block [--at TIME] TITLE...`
    Block { title: String, at: Option<String> },
    /// `note TEXT...`
    Note { text: String },
    /// `review`
    Review,
    /// `finish`
    Finish,
    /// Anything else: the usage line.
    Usage,
}

/// The characters of each argument.
pub open spec fn arg_texts(args: Seq<String>) -> Seq<Seq<char>> {
    args.map_values(|a: String| a@)
}

/// `block --at` without a time: the arguments stop before the title.
pub open spec fn block_at_without_time(args: Seq<String>) -> bool {
    let v = arg_texts(args);
    v.len() == 2 && v[0] == "block"@ && v[1] == "--at"@
}

/// The command that the arguments ask for; the words of a title or a note are
/// joined with single spaces.
pub open spec fn cli_fits(c: CliCommand, args: Seq<String>) -> bool {
    let v = arg_texts(args);
    if v.len() > 0 && v[0] == "task"@ {
        let priority = v.len() > 1 && v[1] == "--priority"@;
        c matches CliCommand::Task { title, priority: p }
            && p == priority && title@ == join_spaced(v.skip(if priority { 2 } else { 1 }))
    } else if v.len() > 0 && v[0] == "block"@ {
        if v.len() > 1 && v[1] == "--at"@ {
            c matches CliCommand::Block { title, at }
                && text_opt_view(at) == Some(v[2]) && title@ == join_spaced(v.skip(3))
        } else {
            c matches CliCommand::Block { title, at } && at is None && title@ == join_spaced(v.skip(1))
        }
    } else if v.len() > 0 && v[0] == "note"@ {
        c matches CliCommand::Note { text } && text@ == join_spaced(v.skip(1))
    } else if v.len() > 0 && v[0] == "review"@ {
        c is Review
    } else if v.len() > 0 && v[0] == "finish"@ {
        c is Finish
    } else {
        c is Usage
    }
}

/// Reads the arguments that follow the program's name.
pub fn parse_cli(args: &Vec<String>) -> (c: CliCommand)
    requires
        !block_at_without_time(args@),
    ensures
        cli_fits(c, args@),
{
    let mut parts: Vec<Vec<char>> = Vec::new();
    let mut i: usize = 0;
    while i < args.len()
        invariant
            i <= args.len(),
            parts.len() == i,
            forall|k: int| 0 <= k < i ==> (#[trigger] parts@[k])@ == args@[k]@,
        decreases args.len() - i,
    {
        parts.push(chars_of(args[i].as_str()));
        i = i + 1;
    }
    let ghost v = arg_texts(args@);
    assert(parts@.map_values(|w: Vec<char>| w@) =~= v);
    if parts.len() == 0 {
        return CliCommand::Usage;
    }
    if is_text(&parts[0], "task") {
        let priority = parts.len() > 1 && is_text(&parts[1], "--priority");
        let from: usize = if priority { 2 } else { 1 };
        let title = join_from(&parts, from);
        return CliCommand::Task { title: string_of(title.as_slice()), priority };
    }
    if is_text(&parts[0], "block") {
        if parts.len() > 1 && is_text(&parts[1], "--at") {
            let at = Some(string_of(parts[2].as_slice()));
            let title = join_from(&parts, 3);
            return CliCommand::Block { title: string_of(title.as_slice()), at };
        }
        let title = join_from(&parts, 1);
        return CliCommand::Block { title: string_of(title.as_slice()), at: None };
    }
    if is_text(&parts[0], "note") {
        let text = join_from(&parts, 1);
        return CliCommand::Note { text: string_of(text.as_slice()) };
    }
    if is_text(&parts[0], "review") {
        return CliCommand::Review;
    }
    if is_text(&parts[0], "finish") {
        return CliCommand::Finish;
    }
    CliCommand::Usage
}

} // verus!
