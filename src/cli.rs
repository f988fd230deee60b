//! The command line: which command the arguments name, and the usage banner.

use vstd::prelude::*;
use crate::lockfile::ENGINE_VERSION;
use crate::logger::{colorize, colorized};
use crate::task::string_views;
use crate::text::str_eq;

verus! {

/// The argument a command needs and did not get.
#[derive(Debug, Clone, Copy, PartialEq, Eq, Structural)]
pub enum MissingArgument {
    TaskName,
    PackageName,
    TemplateName,
}

/// The command the arguments name.
pub enum Command {
    /// No command was given.
    NoCommand,
    Install,
    Task { name: String },
    /// Run a package's binary through npx; the arguments joined by spaces.
    Exec { args: String },
    /// Create a project through `npm create`; the arguments joined by spaces.
    Create { args: String },
    Help,
    /// An unknown command: the usage is shown and the run fails.
    Unknown,
    Missing(MissingArgument),
}

/// Words joined by single spaces.
pub open spec fn spaced(ws: Seq<Seq<char>>) -> Seq<char>
    decreases ws.len(),
{
    if ws.len() == 0 {
        Seq::empty()
    } else if ws.len() == 1 {
        ws[0]
    } else {
        spaced(ws.drop_last()) + " "@ + ws.last()
    }
}

/// Joins the arguments from position `from` on with single spaces.
pub fn join_from(args: &Vec<String>, from: usize) -> (r: String)
    requires
        from <= args@.len(),
    ensures
        r@ == spaced(string_views(args@).subrange(from as int, args@.len() as int)),
{
    let mut out = String::new();
    let mut i: usize = from;
    while i < args.len()
        invariant
            from <= i <= args@.len(),
            out@ == spaced(string_views(args@).subrange(from as int, i as int)),
        decreases args@.len() - i,
    {
        let ghost part = string_views(args@).subrange(from as int, i + 1);
        assert(part.drop_last() =~= string_views(args@).subrange(from as int, i as int));
        assert(part.last() == args@[i as int]@);
        if i > from {
            out.append(" ");
        } else {
            assert(part.len() == 1);
        }
        out.append(args[i].as_str());
        i = i + 1;
    }
    out
}

pub open spec fn arg(args: Seq<String>, i: int) -> Seq<char> {
    args[i]@
}

/// The command that the arguments name; the first argument is the program.
pub open spec fn command_matches(args: Seq<String>, c: Command) -> bool {
    if args.len() < 2 {
        c is NoCommand
    } else {
        let name = arg(args, 1);
        let rest = spaced(string_views(args).subrange(2, args.len() as int));
        if name == "install"@ {
            c is Install
        } else if name == "task"@ {
            if args.len() < 3 {
                c == Command::Missing(MissingArgument::TaskName)
            } else {
                c matches Command::Task { name: t } && t@ == arg(args, 2)
            }
        } else if name == "x"@ || name == "exec"@ {
            if args.len() < 3 {
                c == Command::Missing(MissingArgument::PackageName)
            } else {
                c matches Command::Exec { args: a } && a@ == rest
            }
        } else if name == "create"@ {
            if args.len() < 3 {
                c == Command::Missing(MissingArgument::TemplateName)
            } else {
                c matches Command::Create { args: a } && a@ == rest
            }
        } else if name == "help"@ || name == "h"@ || name == "?"@ || name == "version"@ || name == "v"@ {
            c is Help
        } else {
            c is Unknown
        }
    }
}

/// Reads the command from the program's arguments.
pub fn parse_command(args: &Vec<String>) -> (r: Command)
    ensures
        command_matches(args@, r),
{
    if args.len() < 2 {
        return Command::NoCommand;
    }
    let name = args[1].as_str();
    if str_eq(name, "install") {
        Command::Install
    } else if str_eq(name, "task") {
        if args.len() < 3 {
            Command::Missing(MissingArgument::TaskName)
        } else {
            Command::Task { name: args[2].clone() }
        }
    } else if str_eq(name, "x") || str_eq(name, "exec") {
        if args.len() < 3 {
            Command::Missing(MissingArgument::PackageName)
        } else {
            Command::Exec { args: join_from(args, 2) }
        }
    } else if str_eq(name, "create") {
        if args.len() < 3 {
            Command::Missing(MissingArgument::TemplateName)
        } else {
            Command::Create { args: join_from(args, 2) }
        }
    } else if str_eq(name, "help") || str_eq(name, "h") || str_eq(name, "?") || str_eq(name, "version")
        || str_eq(name, "v") {
        Command::Help
    } else {
        Command::Unknown
    }
}

/// Whether any argument is exactly `flag`.
pub fn has_flag(args: &Vec<String>, flag: &str) -> (r: bool)
    ensures
        r == exists|i: int| 0 <= i < args@.len() && (#[trigger] args@[i])@ == flag@,
{
    let mut i: usize = 0;
    while i < args.len()
        invariant
            i <= args@.len(),
            forall|k: int| 0 <= k < i ==> (#[trigger] args@[k])@ != flag@,
        decreases args@.len() - i,
    {
        if str_eq(args[i].as_str(), flag) {
            return true;
        }
        i = i + 1;
    }
    false
}

/// The banner shown above installs and tasks.
pub const ASCII_ART: &'static str = "
     _______..__   __. .______   .___  ___. 
    /       ||  \\ |  | |   _  \\  |   \\/   | 
   |   (----`|   \\|  | |  |_)  | |  \\  /  | 
    \\   \\    |  . `  | |   ___/  |  |\\/|  | 
.----)   |   |  |\\   | |  |      |  |  |  | 
|_______/    |__| \\__| | _|      |__|  |__| 
";

/// The lines of the usage text.
pub open spec fn usage_text() -> Seq<Seq<char>> {
    seq![
        colorized("red"@, ASCII_ART@),
        colorized("magenta"@, "SuperNPM"@) + " "@ + colorized("magenta"@, ENGINE_VERSION@),
        colorized("white"@, "Usage: snpm <command> [options]"@),
        colorized("white"@, "Commands:"@),
        colorized("white"@, "  install       Install dependencies"@),
        colorized("white"@, "  task          Run a task"@),
        colorized("white"@, "  x | exec      Execute a package"@),
        colorized("white"@, "  create        Create a new project"@),
    ]
}

/// The usage text, one line per element.
pub fn usage_lines() -> (r: Vec<String>)
    ensures
        string_views(r@) == usage_text(),
{
    let mut v: Vec<String> = Vec::new();
    v.push(colorize("red", ASCII_ART));
    let mut title = colorize("magenta", "SuperNPM");
    title.append(" ");
    let ver = colorize("magenta", ENGINE_VERSION);
    title.append(ver.as_str());
    v.push(title);
    v.push(colorize("white", "Usage: snpm <command> [options]"));
    v.push(colorize("white", "Commands:"));
    v.push(colorize("white", "  install       Install dependencies"));
    v.push(colorize("white", "  task          Run a task"));
    v.push(colorize("white", "  x | exec      Execute a package"));
    v.push(colorize("white", "  create        Create a new project"));
    assert(string_views(v@) =~= usage_text());
    v
}

} // verus!
