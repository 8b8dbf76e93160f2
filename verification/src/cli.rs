//! What the command line and the interactive prompt are asked to do.

use vstd::prelude::*;
use crate::parser::{lines_of, split_lines};
use crate::text::{
    chars_of, is_text, join, joined, slice, string_from, strip_prefix, texts, trim, trimmed,
    without_prefix,
};

verus! {

/// What the program is started for.
#[derive(Debug)]
pub enum Invocation {
    /// To show how it is used.
    Help,
    /// To load the patch in this file.
    PlayPatch(String),
    /// To take lines at the prompt.
    Repl,
}

/// What the arguments of the program ask for: help for `help`, `-h` or
/// `--help`, the patch file that another first argument names, and the
/// prompt where there is none. `args[0]` is the name of the program.
pub fn invocation(args: &Vec<String>) -> (r: Invocation)
    ensures
        match r {
            Invocation::Repl => args.len() < 2,
            Invocation::Help => args.len() >= 2 && (args[1]@ == "help"@ || args[1]@ == "-h"@
                || args[1]@ == "--help"@),
            Invocation::PlayPatch(file) => args.len() >= 2 && !(args[1]@ == "help"@ || args[1]@
                == "-h"@ || args[1]@ == "--help"@) && file@ == args[1]@,
        },
{
    if args.len() < 2 {
        return Invocation::Repl;
    }
    let first = chars_of(args[1].as_str());
    if is_text(&first, "help") || is_text(&first, "-h") || is_text(&first, "--help") {
        Invocation::Help
    } else {
        Invocation::PlayPatch(args[1].clone())
    }
}

/// Whether a line is the word `start` alone.
pub open spec fn is_start(line: Seq<char>) -> bool {
    trim(line) == "start"@
}

/// Whether one of the first `n` lines is the word `start` alone.
pub open spec fn has_start(lines: Seq<Seq<char>>, n: int) -> bool {
    exists|i: int| 0 <= i < n && i < lines.len() && is_start(lines[i])
}

/// The first `n` lines without those that are the word `start` alone.
pub open spec fn without_start(lines: Seq<Seq<char>>, n: int) -> Seq<Seq<char>>
    decreases n,
{
    if n <= 0 || n > lines.len() {
        Seq::empty()
    } else if is_start(lines[n - 1]) {
        without_start(lines, n - 1)
    } else {
        without_start(lines, n - 1).push(lines[n - 1])
    }
}

/// A patch file taken apart: whether it asks to start at once, and its
/// statements.
pub struct PatchFile {
    /// Whether a line of the file is the word `start` alone.
    pub auto_start: bool,
    /// The lines of the file without those lines, with a line feed between them.
    pub content: String,
}

/// Takes a patch file apart: the word `start` on a line of its own is no
/// statement but asks to start at once.
pub fn read_patch_file(content: &str) -> (r: PatchFile)
    ensures
        r.auto_start == has_start(lines_of(content@), lines_of(content@).len() as int),
        r.content@ == join(
            without_start(lines_of(content@), lines_of(content@).len() as int),
            "\n"@,
        ),
{
    let lines = split_lines(&chars_of(content));
    let ghost all = lines_of(content@);
    let mut kept: Vec<Vec<char>> = Vec::new();
    let mut found = false;
    let mut i: usize = 0;
    assert(texts(kept@) =~= Seq::<Seq<char>>::empty());
    assert(texts(lines@).len() == lines.len());
    while i < lines.len()
        invariant
            i <= lines.len() == all.len(),
            all == texts(lines@),
            found == has_start(all, i as int),
            texts(kept@) == without_start(all, i as int),
        decreases lines.len() - i,
    {
        assert(all[i as int] == lines[i as int]@);
        let ghost before = texts(kept@);
        if is_text(&trimmed(&lines[i]), "start") {
            found = true;
        } else {
            kept.push(slice(&lines[i], 0, lines[i].len()));
            assert(lines[i as int]@.subrange(0, lines[i as int]@.len() as int) =~= lines[i as int]@);
            assert(texts(kept@) =~= before.push(all[i as int]));
            assert(has_start(all, i + 1) == has_start(all, i as int)) by {
                if has_start(all, i + 1) {
                    let k = choose|k: int| 0 <= k < i + 1 && k < all.len() && is_start(all[k]);
                    assert(k < i);
                }
            }
        }
        i += 1;
    }
    let text = joined(&kept, 0, &chars_of("\n"));
    assert(texts(kept@).subrange(0, kept.len() as int) =~= texts(kept@));
    PatchFile { auto_start: found, content: string_from(&text) }
}

/// Whether a line of a patch is shown when the patch is listed: it is
/// neither blank nor a comment.
pub fn is_listed(line: &str) -> (r: bool)
    ensures
        r == !crate::parser::is_blank(trim(line@)),
{
    let t = trimmed(&chars_of(line));
    !(t.len() == 0 || t[0] == '#')
}

/// What a line at the prompt asks for.
#[derive(Debug)]
pub enum ReplCommand {
    /// Nothing: the line is blank.
    Empty,
    Quit,
    Help,
    Start,
    Stop,
    /// To switch the manual gates on.
    Gate,
    /// To switch the manual gates off.
    Release,
    Clear,
    List,
    Validate,
    /// To show the ports of the module or module type of this name.
    Inspect(String),
    /// To take the line as a line of the patch language.
    Patch(String),
}

/// What a line at the prompt asks for, in terms of texts.
pub enum ReplCommandView {
    Empty,
    Quit,
    Help,
    Start,
    Stop,
    Gate,
    Release,
    Clear,
    List,
    Validate,
    Inspect(Seq<char>),
    Patch(Seq<char>),
}

impl View for ReplCommand {
    type V = ReplCommandView;

    open spec fn view(&self) -> ReplCommandView {
        match self {
            ReplCommand::Empty => ReplCommandView::Empty,
            ReplCommand::Quit => ReplCommandView::Quit,
            ReplCommand::Help => ReplCommandView::Help,
            ReplCommand::Start => ReplCommandView::Start,
            ReplCommand::Stop => ReplCommandView::Stop,
            ReplCommand::Gate => ReplCommandView::Gate,
            ReplCommand::Release => ReplCommandView::Release,
            ReplCommand::Clear => ReplCommandView::Clear,
            ReplCommand::List => ReplCommandView::List,
            ReplCommand::Validate => ReplCommandView::Validate,
            ReplCommand::Inspect(name) => ReplCommandView::Inspect(name@),
            ReplCommand::Patch(line) => ReplCommandView::Patch(line@),
        }
    }
}

/// What a line at the prompt asks for: one of the words of the prompt, the
/// inspection of a name, or a line of the patch language.
pub open spec fn repl_command_of(line: Seq<char>) -> ReplCommandView {
    let input = trim(line);
    if input.len() == 0 {
        ReplCommandView::Empty
    } else if input == "quit"@ || input == "exit"@ {
        ReplCommandView::Quit
    } else if input == "help"@ {
        ReplCommandView::Help
    } else if input == "start"@ {
        ReplCommandView::Start
    } else if input == "stop"@ {
        ReplCommandView::Stop
    } else if input == "gate"@ || input == "g"@ {
        ReplCommandView::Gate
    } else if input == "release"@ || input == "r"@ {
        ReplCommandView::Release
    } else if input == "clear"@ {
        ReplCommandView::Clear
    } else if input == "list"@ {
        ReplCommandView::List
    } else if input == "validate"@ {
        ReplCommandView::Validate
    } else {
        match strip_prefix(input, "inspect "@) {
            Some(name) => ReplCommandView::Inspect(trim(name)),
            None => ReplCommandView::Patch(input),
        }
    }
}

/// Reads a line at the prompt.
pub fn parse_repl_command(line: &str) -> (r: ReplCommand)
    ensures
        r@ == repl_command_of(line@),
{
    let input = trimmed(&chars_of(line));
    if input.len() == 0 {
        ReplCommand::Empty
    } else if is_text(&input, "quit") || is_text(&input, "exit") {
        ReplCommand::Quit
    } else if is_text(&input, "help") {
        ReplCommand::Help
    } else if is_text(&input, "start") {
        ReplCommand::Start
    } else if is_text(&input, "stop") {
        ReplCommand::Stop
    } else if is_text(&input, "gate") || is_text(&input, "g") {
        ReplCommand::Gate
    } else if is_text(&input, "release") || is_text(&input, "r") {
        ReplCommand::Release
    } else if is_text(&input, "clear") {
        ReplCommand::Clear
    } else if is_text(&input, "list") {
        ReplCommand::List
    } else if is_text(&input, "validate") {
        ReplCommand::Validate
    } else {
        match without_prefix(&input, "inspect ") {
            Some(name) => ReplCommand::Inspect(string_from(&trimmed(&name))),
            None => ReplCommand::Patch(string_from(&input)),
        }
    }
}

/// What a line asks for at the prompt of a loaded patch.
#[derive(Debug)]
pub enum PlayerCommand {
    /// Nothing: the line is blank.
    Empty,
    Start,
    Stop,
    Quit,
    Help,
    /// To show the ports of the module or module type of this name.
    Inspect(String),
    /// Something that the prompt does not know.
    Unknown(String),
}

/// What a line asks for at the prompt of a loaded patch, in terms of texts.
pub enum PlayerCommandView {
    Empty,
    Start,
    Stop,
    Quit,
    Help,
    Inspect(Seq<char>),
    Unknown(Seq<char>),
}

impl View for PlayerCommand {
    type V = PlayerCommandView;

    open spec fn view(&self) -> PlayerCommandView {
        match self {
            PlayerCommand::Empty => PlayerCommandView::Empty,
            PlayerCommand::Start => PlayerCommandView::Start,
            PlayerCommand::Stop => PlayerCommandView::Stop,
            PlayerCommand::Quit => PlayerCommandView::Quit,
            PlayerCommand::Help => PlayerCommandView::Help,
            PlayerCommand::Inspect(name) => PlayerCommandView::Inspect(name@),
            PlayerCommand::Unknown(line) => PlayerCommandView::Unknown(line@),
        }
    }
}

/// What a line asks for at the prompt of a loaded patch.
pub open spec fn player_command_of(line: Seq<char>) -> PlayerCommandView {
    let input = trim(line);
    if input.len() == 0 {
        PlayerCommandView::Empty
    } else if input == "start"@ {
        PlayerCommandView::Start
    } else if input == "stop"@ {
        PlayerCommandView::Stop
    } else if input == "quit"@ || input == "exit"@ {
        PlayerCommandView::Quit
    } else if input == "help"@ {
        PlayerCommandView::Help
    } else {
        match strip_prefix(input, "inspect "@) {
            Some(name) => PlayerCommandView::Inspect(trim(name)),
            None => PlayerCommandView::Unknown(input),
        }
    }
}

/// Reads a line at the prompt of a loaded patch.
pub fn parse_player_command(line: &str) -> (r: PlayerCommand)
    ensures
        r@ == player_command_of(line@),
{
    let input = trimmed(&chars_of(line));
    if input.len() == 0 {
        PlayerCommand::Empty
    } else if is_text(&input, "start") {
        PlayerCommand::Start
    } else if is_text(&input, "stop") {
        PlayerCommand::Stop
    } else if is_text(&input, "quit") || is_text(&input, "exit") {
        PlayerCommand::Quit
    } else if is_text(&input, "help") {
        PlayerCommand::Help
    } else {
        match without_prefix(&input, "inspect ") {
            Some(name) => PlayerCommand::Inspect(string_from(&trimmed(&name))),
            None => PlayerCommand::Unknown(string_from(&input)),
        }
    }
}

} // verus!
