//! The commands of the console and their completion.

use vstd::prelude::*;
use vstd::string::*;

verus! {

pub const VAR_COMMAND: &'static str = "var";

pub const ARG_COMMAND: &'static str = "arg";

pub const CONTINUE_COMMAND: &'static str = "continue";

pub const CONTINUE_COMMAND_SHORT: &'static str = "c";

pub const FRAME_COMMAND: &'static str = "frame";

pub const RUN_COMMAND: &'static str = "run";

pub const RUN_COMMAND_SHORT: &'static str = "r";

pub const STEP_INSTRUCTION_COMMAND: &'static str = "stepi";

pub const STEP_INTO_COMMAND: &'static str = "step";

pub const STEP_INTO_COMMAND_SHORT: &'static str = "s";

pub const STEP_OUT_COMMAND: &'static str = "stepout";

pub const STEP_OUT_COMMAND_SHORT: &'static str = "so";

pub const STEP_OVER_COMMAND: &'static str = "next";

pub const STEP_OVER_COMMAND_SHORT: &'static str = "n";

pub const SYMBOL_COMMAND: &'static str = "symbol";

pub const BREAK_COMMAND: &'static str = "break";

pub const BREAK_COMMAND_SHORT: &'static str = "b";

pub const BACKTRACE_COMMAND: &'static str = "backtrace";

pub const BACKTRACE_COMMAND_SHORT: &'static str = "bt";

pub const MEMORY_COMMAND: &'static str = "memory";

pub const MEMORY_COMMAND_SHORT: &'static str = "m";

pub const REGISTER_COMMAND: &'static str = "register";

pub const REGISTER_COMMAND_SHORT: &'static str = "reg";

pub const HELP_COMMAND: &'static str = "help";

pub const HELP_COMMAND_SHORT: &'static str = "h";

pub const QUIT_COMMAND: &'static str = "quit";

pub const QUIT_COMMAND_SHORT: &'static str = "q";

/// `text` between the terminal's codes for bold and underlined, and the
/// code that resets them.
pub open spec fn emphasis(text: Seq<char>) -> Seq<char> {
    "\u{1b}[1m\u{1b}[4m"@ + text + "\u{1b}[0m"@
}

/// Formats `text` as `crossterm` shows it after `Stylize::bold` and
/// `Stylize::underlined`. The contract claims the characters that the
/// crate's source writes for these two attributes: the codes for bold and
/// for underlined, the text, and the code that resets.
#[verifier::external_body]
fn emphasized(text: &str) -> (r: String)
    ensures
        r@ == emphasis(text@),
{
    format!("{}", crossterm::style::Stylize::underlined(crossterm::style::Stylize::bold(text)))
}

/// `prefix` stands at the beginning of `s`.
pub open spec fn begins_with(s: Seq<char>, prefix: Seq<char>) -> bool {
    prefix.len() <= s.len() && s.take(prefix.len() as int) == prefix
}

/// Whether `prefix` stands at the beginning of `s`.
pub fn starts_with(s: &str, prefix: &str) -> (r: bool)
    ensures
        r == begins_with(s@, prefix@),
{
    let n = prefix.unicode_len();
    if n > s.unicode_len() {
        return false;
    }
    let mut i: usize = 0;
    while i < n
        invariant
            n == prefix@.len(),
            n <= s@.len(),
            i <= n,
            forall|k: int| 0 <= k < i ==> s@[k] == prefix@[k],
        decreases n - i,
    {
        if s.get_char(i) != prefix.get_char(i) {
            assert(s@.take(n as int)[i as int] != prefix@[i as int]);
            return false;
        }
        i += 1;
    }
    assert(s@.take(n as int) =~= prefix@);
    true
}

/// A command as the console lists it: under its long name, and under a
/// short one if it has one.
#[derive(Clone, Debug)]
pub struct CommandView {
    pub short: Option<String>,
    pub long: String,
}

impl CommandView {
    /// A command without a short name.
    pub fn from_long(value: &str) -> (r: CommandView)
        ensures
            r.short is None,
            r.long@ == value@,
    {
        CommandView { short: None, long: String::from_str(value) }
    }

    /// A command with a short name.
    pub fn from_pair(short: &str, long: &str) -> (r: CommandView)
        ensures
            r.short matches Some(s) && s@ == short@,
            r.long@ == long@,
    {
        CommandView { short: Some(String::from_str(short)), long: String::from_str(long) }
    }

    /// The command has the long name `long` and the short name `short`, or none.
    pub open spec fn is_listed_as(&self, short: Option<Seq<char>>, long: Seq<char>) -> bool {
        self.long@ == long && match (self.short, short) {
            (Some(mine), Some(wanted)) => mine@ == wanted,
            (None, None) => true,
            _ => false,
        }
    }

    pub fn long(&self) -> (r: String)
        ensures
            r@ == self.long@,
    {
        self.long.clone()
    }

    /// How the command is listed. Where the long name begins with the short
    /// one, that beginning is emphasized; else the short name, emphasized,
    /// follows the long one after a bar.
    pub open spec fn listed(&self) -> Seq<char> {
        match self.short {
            Some(short) => if begins_with(self.long@, short@) {
                emphasis(short@) + self.long@.skip(short@.len() as int)
            } else {
                self.long@ + "|"@ + emphasis(short@)
            },
            None => self.long@,
        }
    }

    pub fn display_with_short(&self) -> (r: String)
        ensures
            r@ == self.listed(),
    {
        match &self.short {
            Some(short) => {
                if starts_with(self.long.as_str(), short.as_str()) {
                    let rest = self.long.as_str().substring_char(
                        short.as_str().unicode_len(),
                        self.long.as_str().unicode_len(),
                    );
                    let mut shown = emphasized(short.as_str());
                    shown.append(rest);
                    assert(self.long@.subrange(short@.len() as int, self.long@.len() as int)
                        =~= self.long@.skip(short@.len() as int));
                    shown
                } else {
                    let mut shown = self.long.clone();
                    shown.append("|");
                    shown.append(emphasized(short.as_str()).as_str());
                    shown
                }
            },
            None => self.long(),
        }
    }
}

/// A completion of what was typed: how to show it, and what to put in its place.
#[derive(Debug)]
pub struct Candidate {
    pub display: String,
    pub replacement: String,
}

/// The commands among the first `upto` whose long name begins with `line`,
/// in their order.
pub open spec fn matching(commands: Seq<CommandView>, line: Seq<char>, upto: int) -> Seq<
    CommandView,
>
    decreases upto,
{
    if upto <= 0 || upto > commands.len() {
        Seq::empty()
    } else if begins_with(commands[upto - 1].long@, line) {
        matching(commands, line, upto - 1).push(commands[upto - 1])
    } else {
        matching(commands, line, upto - 1)
    }
}

/// Completes commands by the beginning of their long names.
pub struct CommandCompleter {
    commands: Vec<CommandView>,
}

impl CommandCompleter {
    /// The commands that the completer knows, in their order.
    pub closed spec fn commands(&self) -> Seq<CommandView> {
        self.commands@
    }

    pub fn new(commands: Vec<CommandView>) -> (r: CommandCompleter)
        ensures
            r.commands() == commands@,
    {
        CommandCompleter { commands }
    }

    /// The completions of `line`: one for every command whose long name
    /// begins with `line`, shown as the command is listed and replacing the
    /// line by the long name. Completion starts at the beginning of the
    /// line, which the first part of the result says.
    pub fn complete(&self, line: &str) -> (r: (usize, Vec<Candidate>))
        ensures
            r.0 == 0,
            r.1@.len() == matching(self.commands(), line@, self.commands().len() as int).len(),
            forall|i: int|
                0 <= i < r.1@.len() ==> (#[trigger] r.1@[i]).display@ == matching(
                    self.commands(),
                    line@,
                    self.commands().len() as int,
                )[i].listed() && r.1@[i].replacement@ == matching(
                    self.commands(),
                    line@,
                    self.commands().len() as int,
                )[i].long@,
    {
        let mut pairs: Vec<Candidate> = Vec::new();
        let mut k: usize = 0;
        while k < self.commands.len()
            invariant
                k <= self.commands@.len(),
                pairs@.len() == matching(self.commands@, line@, k as int).len(),
                forall|i: int|
                    0 <= i < pairs@.len() ==> (#[trigger] pairs@[i]).display@ == matching(
                        self.commands@,
                        line@,
                        k as int,
                    )[i].listed() && pairs@[i].replacement@ == matching(
                        self.commands@,
                        line@,
                        k as int,
                    )[i].long@,
            decreases self.commands.len() - k,
        {
            let command = &self.commands[k];
            if starts_with(command.long.as_str(), line) {
                pairs.push(
                    Candidate {
                        display: command.display_with_short(),
                        replacement: command.long(),
                    },
                );
            }
            k += 1;
        }
        (0, pairs)
    }
}

/// The commands of the console, in the order in which it lists them.
pub fn default_commands() -> (r: Vec<CommandView>)
    ensures
        r@.len() == 16,
        r@[0].is_listed_as(None, VAR_COMMAND@),
        r@[1].is_listed_as(None, ARG_COMMAND@),
        r@[2].is_listed_as(Some(CONTINUE_COMMAND_SHORT@), CONTINUE_COMMAND@),
        r@[3].is_listed_as(None, FRAME_COMMAND@),
        r@[4].is_listed_as(Some(RUN_COMMAND_SHORT@), RUN_COMMAND@),
        r@[5].is_listed_as(None, STEP_INSTRUCTION_COMMAND@),
        r@[6].is_listed_as(Some(STEP_INTO_COMMAND_SHORT@), STEP_INTO_COMMAND@),
        r@[7].is_listed_as(Some(STEP_OUT_COMMAND_SHORT@), STEP_OUT_COMMAND@),
        r@[8].is_listed_as(Some(STEP_OVER_COMMAND_SHORT@), STEP_OVER_COMMAND@),
        r@[9].is_listed_as(None, SYMBOL_COMMAND@),
        r@[10].is_listed_as(Some(BREAK_COMMAND_SHORT@), BREAK_COMMAND@),
        r@[11].is_listed_as(Some(BACKTRACE_COMMAND_SHORT@), BACKTRACE_COMMAND@),
        r@[12].is_listed_as(Some(MEMORY_COMMAND_SHORT@), MEMORY_COMMAND@),
        r@[13].is_listed_as(Some(REGISTER_COMMAND_SHORT@), REGISTER_COMMAND@),
        r@[14].is_listed_as(Some(HELP_COMMAND_SHORT@), HELP_COMMAND@),
        r@[15].is_listed_as(Some(QUIT_COMMAND_SHORT@), QUIT_COMMAND@),
{
    let mut commands: Vec<CommandView> = Vec::new();
    commands.push(CommandView::from_long(VAR_COMMAND));
    commands.push(CommandView::from_long(ARG_COMMAND));
    commands.push(CommandView::from_pair(CONTINUE_COMMAND_SHORT, CONTINUE_COMMAND));
    commands.push(CommandView::from_long(FRAME_COMMAND));
    commands.push(CommandView::from_pair(RUN_COMMAND_SHORT, RUN_COMMAND));
    commands.push(CommandView::from_long(STEP_INSTRUCTION_COMMAND));
    commands.push(CommandView::from_pair(STEP_INTO_COMMAND_SHORT, STEP_INTO_COMMAND));
    commands.push(CommandView::from_pair(STEP_OUT_COMMAND_SHORT, STEP_OUT_COMMAND));
    commands.push(CommandView::from_pair(STEP_OVER_COMMAND_SHORT, STEP_OVER_COMMAND));
    commands.push(CommandView::from_long(SYMBOL_COMMAND));
    commands.push(CommandView::from_pair(BREAK_COMMAND_SHORT, BREAK_COMMAND));
    commands.push(CommandView::from_pair(BACKTRACE_COMMAND_SHORT, BACKTRACE_COMMAND));
    commands.push(CommandView::from_pair(MEMORY_COMMAND_SHORT, MEMORY_COMMAND));
    commands.push(CommandView::from_pair(REGISTER_COMMAND_SHORT, REGISTER_COMMAND));
    commands.push(CommandView::from_pair(HELP_COMMAND_SHORT, HELP_COMMAND));
    commands.push(CommandView::from_pair(QUIT_COMMAND_SHORT, QUIT_COMMAND));
    commands
}

} // verus!
