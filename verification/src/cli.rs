//! The command-line front end: its arguments, its usage text, what each
//! shell line asks for, and where and how the command history is kept.
use vstd::prelude::*;
use crate::command::CommandSurface;
use crate::model::{SwatError, SwatResult};
use crate::text::{
    join, joined, owned, parse_uint, parse_uint_str, push_str, str_eq, strip_prefix, trim, trim_str,
    views, IntParseError, starts_with,
};

verus! {

/// Which target the shell drives.
#[derive(Clone, Debug, PartialEq, Eq)]
pub enum Mode {
    Mock,
    Local { program: String, args: Vec<String> },
    Agent { program: String, args: Vec<String> },
}

/// What the command line asks for.
#[derive(Clone, Debug, PartialEq, Eq)]
pub struct CliConfig {
    pub mode: Mode,
    pub store_path: Option<String>,
    pub triggers_path: Option<String>,
}

/// What a command line leads to: a configuration to run, or the request
/// for the usage text.
#[derive(Clone, Debug, PartialEq, Eq)]
pub enum CliOutcome {
    Run(CliConfig),
    Help,
}

/// The usage text of the shell.
pub const USAGE_TEXT: &'static str = "usage: swat-command [--store <path>] [--triggers <path>] <mock|local|agent> [program] [args...]\n\nmodes:\n  mock\n    run the built-in mock target\n  local <program> [args...]\n    observe a generic local process via swat-adapter-local\n  agent <program> [args...]\n    observe an agent-runtime emitter via swat-adapter-agent\n\nshell:\n  commands are read from stdin\n  shell meta-commands: sleep <ms>, quit, exit\n  --triggers preloads a saved trigger file at startup\n  use 'help' for debugger commands\n  use 'quit' or 'exit' to leave the shell";

/// The usage text of the shell.
pub fn usage_text() -> (r: &'static str)
    ensures
        r@ == USAGE_TEXT@,
{
    USAGE_TEXT
}

/// A usage error: the message, a line break and the usage text.
pub fn usage_error(message: &str) -> (r: SwatError)
    ensures
        r@ == message@ + "\n"@ + USAGE_TEXT@,
{
    let mut m = owned(message);
    push_str(&mut m, "\n");
    push_str(&mut m, USAGE_TEXT);
    SwatError::new(m)
}

/// A program mode: the first argument is the program, the rest its
/// arguments; with no argument at all, a usage error that names `label`.
pub fn parse_program_mode(args: Vec<String>, label: &str) -> (r: SwatResult<(String, Vec<String>)>)
    ensures
        args@.len() == 0 ==> (r matches Err(e) && e@ == label@ + " mode requires a program and optional args"@ + "\n"@ + USAGE_TEXT@),
        args@.len() > 0 ==> (r matches Ok((p, rest)) && p == args@[0] && rest@ == args@.drop_first()),
{
    if args.len() == 0 {
        let mut m = owned(label);
        push_str(&mut m, " mode requires a program and optional args");
        proof {
            assert(m@ == label@ + " mode requires a program and optional args"@);
        }
        let e = usage_error(m.as_str());
        return Err(e);
    }
    let mut rest = args;
    let program = rest.remove(0);
    Ok((program, rest))
}

/// What the command line means, as `parse_cli` reads it.
pub open spec fn cli_outcome(args: Seq<Seq<char>>) -> Result<(Option<Seq<char>>, Option<Seq<char>>, Seq<Seq<char>>), Seq<char>>
    decreases args.len(),
{
    if args.len() == 0 {
        Err("missing mode"@)
    } else if args[0] == "--store"@ {
        if args.len() < 2 {
            Err("--store requires a path"@)
        } else {
            match cli_outcome(args.subrange(2, args.len() as int)) {
                Ok((st, t, rest)) => Ok((if st is Some { st } else { Some(args[1]) }, t, rest)),
                Err(m) => Err(m),
            }
        }
    } else if args[0] == "--triggers"@ {
        if args.len() < 2 {
            Err("--triggers requires a path"@)
        } else {
            match cli_outcome(args.subrange(2, args.len() as int)) {
                Ok((st, t, rest)) => Ok((st, if t is Some { t } else { Some(args[1]) }, rest)),
                Err(m) => Err(m),
            }
        }
    } else {
        Ok((None, None, args))
    }
}

/// `e` is the usage error with message `m`.
pub open spec fn is_usage_error(e: SwatError, m: Seq<char>) -> bool {
    e@ == m + "\n"@ + USAGE_TEXT@
}

/// Reads the command line: `--store <path>` and `--triggers <path>` before
/// the mode (a later one of each wins), then the mode and its program.
/// `help`, `-h` and `--help` ask for the usage text.
pub fn parse_cli(args: Vec<String>) -> (r: SwatResult<CliOutcome>)
    ensures
        match cli_outcome(views(args@)) {
            Err(m) => r matches Err(e) && is_usage_error(e, m),
            Ok((store, triggers, rest)) => if rest.len() == 0 {
                r matches Err(e) && is_usage_error(e, "missing mode"@)
            } else if rest[0] == "mock"@ {
                if rest.len() > 1 {
                    r matches Err(e) && is_usage_error(e, "mock mode does not accept a program"@)
                } else {
                    r matches Ok(CliOutcome::Run(c)) && c.mode is Mock && crate::agent_protocol::opt_text(c.store_path) == store
                        && crate::agent_protocol::opt_text(c.triggers_path) == triggers
                }
            } else if rest[0] == "local"@ || rest[0] == "agent"@ {
                if rest.len() == 1 {
                    r matches Err(e) && is_usage_error(e, rest[0] + " mode requires a program and optional args"@)
                } else {
                    r matches Ok(CliOutcome::Run(c)) && crate::agent_protocol::opt_text(c.store_path) == store
                        && crate::agent_protocol::opt_text(c.triggers_path) == triggers && (if rest[0] == "local"@ {
                        c.mode matches Mode::Local { program, args } && program@ == rest[1] && views(args@) == rest.subrange(2, rest.len() as int)
                    } else {
                        c.mode matches Mode::Agent { program, args } && program@ == rest[1] && views(args@) == rest.subrange(2, rest.len() as int)
                    })
                }
            } else if rest[0] == "--help"@ || rest[0] == "-h"@ || rest[0] == "help"@ {
                r matches Ok(CliOutcome::Help)
            } else {
                r matches Err(e) && is_usage_error(e, "unknown mode '"@ + rest[0] + "' (expected mock, local, or agent)"@)
            },
        },
{
    let ghost all = views(args@);
    let mut rest = args;
    let mut store_path: Option<String> = None;
    let mut triggers_path: Option<String> = None;
    let ghost mut consumed: int = 0;
    proof {
        assert(views(rest@) =~= all.subrange(0, all.len() as int));
    }
    loop
        invariant
            0 <= consumed <= all.len(),
            views(rest@) == all.subrange(consumed, all.len() as int),
            cli_outcome(all) == match cli_outcome(views(rest@)) {
                Ok((st, t, r)) => Ok((
                    match st { Some(x) => Some(x), None => crate::agent_protocol::opt_text(store_path) },
                    match t { Some(x) => Some(x), None => crate::agent_protocol::opt_text(triggers_path) },
                    r,
                )),
                Err(m) => Err(m),
            },
        ensures
            cli_outcome(all) == match cli_outcome(views(rest@)) {
                Ok((st, t, r)) => Ok((
                    match st { Some(x) => Some(x), None => crate::agent_protocol::opt_text(store_path) },
                    match t { Some(x) => Some(x), None => crate::agent_protocol::opt_text(triggers_path) },
                    r,
                )),
                Err(m) => Err(m),
            },
            rest@.len() == 0 || (views(rest@)[0] != "--store"@ && views(rest@)[0] != "--triggers"@) || rest@.len() < 2,
        decreases rest@.len(),
    {
        if rest.len() < 2 {
            break;
        }
        let is_store = str_eq(rest[0].as_str(), "--store");
        let is_triggers = str_eq(rest[0].as_str(), "--triggers");
        if !is_store && !is_triggers {
            break;
        }
        let ghost before = views(rest@);
        let _flag = rest.remove(0);
        let value = rest.remove(0);
        proof {
            assert(views(rest@) =~= before.subrange(2, before.len() as int));
            assert(value@ == before[1]);
            consumed = consumed + 2;
            assert(views(rest@) =~= all.subrange(consumed, all.len() as int));
        }
        if is_store {
            store_path = Some(value);
        } else {
            triggers_path = Some(value);
        }
    }
    if rest.len() > 0 && rest.len() < 2 {
        if str_eq(rest[0].as_str(), "--store") {
            return Err(usage_error("--store requires a path"));
        }
        if str_eq(rest[0].as_str(), "--triggers") {
            return Err(usage_error("--triggers requires a path"));
        }
    }
    proof {
        if rest@.len() > 0 {
            let v = views(rest@);
            assert(v[0] != "--store"@ && v[0] != "--triggers"@);
        }
    }
    if rest.len() == 0 {
        return Err(usage_error("missing mode"));
    }
    let selected = rest.remove(0);
    let ghost tail = views(rest@);
    if str_eq(selected.as_str(), "mock") {
        if rest.len() > 0 {
            return Err(usage_error("mock mode does not accept a program"));
        }
        return Ok(CliOutcome::Run(CliConfig { mode: Mode::Mock, store_path, triggers_path }));
    }
    if str_eq(selected.as_str(), "local") || str_eq(selected.as_str(), "agent") {
        let is_local = str_eq(selected.as_str(), "local");
        let (program, args) = match parse_program_mode(rest, selected.as_str()) {
            Ok(p) => p,
            Err(e) => {
                return Err(e);
            },
        };
        proof {
            assert(views(args@) =~= tail.drop_first());
        }
        let mode = if is_local {
            Mode::Local { program, args }
        } else {
            Mode::Agent { program, args }
        };
        return Ok(CliOutcome::Run(CliConfig { mode, store_path, triggers_path }));
    }
    if str_eq(selected.as_str(), "--help") || str_eq(selected.as_str(), "-h") || str_eq(selected.as_str(), "help") {
        return Ok(CliOutcome::Help);
    }
    let mut m = owned("unknown mode '");
    push_str(&mut m, selected.as_str());
    push_str(&mut m, "' (expected mock, local, or agent)");
    proof {
        assert(m@ == "unknown mode '"@ + selected@ + "' (expected mock, local, or agent)"@);
    }
    Err(usage_error(m.as_str()))
}


/// How many history entries are kept by default.
pub const DEFAULT_COMMAND_HISTORY_LIMIT: usize = 128;

/// The trimmed lines that are not blank, in order.
pub open spec fn kept_lines(lines: Seq<Seq<char>>) -> Seq<Seq<char>>
    decreases lines.len(),
{
    if lines.len() == 0 {
        Seq::empty()
    } else {
        let rest = kept_lines(lines.drop_last());
        let t = trim(lines.last());
        if t.len() == 0 {
            rest
        } else {
            rest.push(t)
        }
    }
}

/// The history that a file with `contents` holds: its non-blank lines,
/// trimmed, the last `limit` of them.
pub open spec fn history_of(contents: Seq<char>, limit: nat) -> Seq<Seq<char>> {
    let all = kept_lines(crate::repository::text_lines(contents));
    if all.len() > limit {
        all.subrange(all.len() - limit, all.len() as int)
    } else {
        all
    }
}

/// The history that a file with `contents` holds, as `history_of` says.
pub fn history_entries(contents: &str, limit: usize) -> (r: Vec<String>)
    ensures
        views(r@) == history_of(contents@, limit as nat),
{
    let lines = crate::repository::split_lines(contents);
    let ghost ls = crate::repository::text_lines(contents@);
    let n = lines.len();
    let mut kept: Vec<String> = Vec::new();
    let mut i: usize = 0;
    while i < n
        invariant
            n == lines@.len(),
            n == ls.len(),
            ls == crate::repository::text_lines(contents@),
            forall|k: int| 0 <= k < n ==> (#[trigger] lines@[k])@ == ls[k],
            i <= n,
            views(kept@) == kept_lines(ls.take(i as int)),
        decreases n - i,
    {
        proof {
            assert(ls.take(i as int + 1).drop_last() =~= ls.take(i as int));
        }
        let t = trim_str(lines[i]);
        if t.unicode_len() > 0 {
            kept.push(owned(t));
            proof {
                assert(views(kept@) =~= kept_lines(ls.take(i as int)).push(t@));
            }
        }
        i = i + 1;
    }
    proof {
        assert(ls.take(n as int) =~= ls);
    }
    let total = kept.len();
    if total > limit {
        let ghost all = views(kept@);
        let mut out: Vec<String> = Vec::new();
        let mut j: usize = total - limit;
        while j < total
            invariant
                total == kept@.len(),
                limit < total,
                total - limit <= j <= total,
                all == views(kept@),
                views(out@) == all.subrange(total - limit, j as int),
            decreases total - j,
        {
            let x = kept[j].clone();
            proof {
                assert(x@ == all[j as int]);
            }
            let ghost before = views(out@);
            out.push(x);
            proof {
                assert(views(out@) =~= before.push(x@));
                assert(views(out@) =~= all.subrange(total - limit, j as int + 1));
            }
            j = j + 1;
        }
        out
    } else {
        kept
    }
}

/// The text of a history file: the entries one per line, each line ended.
pub open spec fn history_file_text(entries: Seq<Seq<char>>) -> Seq<char> {
    let t = join(entries, "\n"@);
    if t.len() == 0 {
        t
    } else {
        t + "\n"@
    }
}

/// The text of a history file, as `history_file_text` says.
pub fn history_text(entries: &Vec<String>) -> (r: String)
    ensures
        r@ == history_file_text(views(entries@)),
{
    let mut t = joined(entries, "\n");
    if t.unicode_len() > 0 {
        push_str(&mut t, "\n");
    }
    t
}

/// `rel` under directory `base`, as a path join makes it: an absolute
/// `rel` stands alone, and a separator goes between the two where needed.
pub open spec fn path_join(base: Seq<char>, rel: Seq<char>) -> Seq<char> {
    if rel.len() > 0 && rel[0] == '/' {
        rel
    } else if base.len() == 0 || base.last() == '/' {
        base + rel
    } else {
        base + "/"@ + rel
    }
}

/// `rel` under directory `base`, as `path_join` says.
pub fn join_path(base: &str, rel: &str) -> (r: String)
    ensures
        r@ == path_join(base@, rel@),
{
    let nb = base.unicode_len();
    let nr = rel.unicode_len();
    if nr > 0 && rel.get_char(0) == '/' {
        return owned(rel);
    }
    let mut s = owned(base);
    if !(nb == 0 || base.get_char(nb - 1) == '/') {
        push_str(&mut s, "/");
    }
    push_str(&mut s, rel);
    s
}

/// Where a surface keeps its history: the path its override variable names
/// (trimmed, when not blank); else under the state directory (given, or
/// `.local/state` in the home directory) in `swat-rs`; nowhere when neither
/// is known.
pub open spec fn history_path(surface: CommandSurface, override_path: Option<Seq<char>>, state_home: Option<Seq<char>>, home: Option<Seq<char>>) -> Option<Seq<char>> {
    let file = match surface {
        CommandSurface::Shell => "swat-command.history"@,
        CommandSurface::Tui => "swat-ui-tui.history"@,
    };
    match override_path {
        Some(p) if trim(p).len() > 0 => Some(trim(p)),
        _ => {
            let base = match state_home {
                Some(b) => Some(b),
                None => match home {
                    Some(h) => Some(path_join(path_join(h, ".local"@), "state"@)),
                    None => None,
                },
            };
            match base {
                Some(b) => Some(path_join(path_join(b, "swat-rs"@), file)),
                None => None,
            }
        },
    }
}

/// The variable that overrides where a surface keeps its history.
pub fn history_override_variable(surface: CommandSurface) -> (r: &'static str)
    ensures
        r@ == match surface {
            CommandSurface::Shell => "SWAT_COMMAND_HISTORY"@,
            CommandSurface::Tui => "SWAT_TUI_HISTORY"@,
        },
{
    match surface {
        CommandSurface::Shell => "SWAT_COMMAND_HISTORY",
        CommandSurface::Tui => "SWAT_TUI_HISTORY",
    }
}

/// Where a surface keeps its history, from the values of its override
/// variable, `XDG_STATE_HOME` and `HOME`, as `history_path` says.
pub fn persisted_command_history_path(
    surface: CommandSurface,
    override_path: Option<&str>,
    state_home: Option<&str>,
    home: Option<&str>,
) -> (r: Option<String>)
    ensures
        crate::agent_protocol::opt_text(r) == history_path(
            surface,
            crate::agent_protocol::opt_str(override_path),
            crate::agent_protocol::opt_str(state_home),
            crate::agent_protocol::opt_str(home),
        ),
{
    match override_path {
        Some(p) => {
            let t = trim_str(p);
            if t.unicode_len() > 0 {
                return Some(owned(t));
            }
        },
        None => {},
    }
    let base: Option<String> = match state_home {
        Some(b) => Some(owned(b)),
        None => match home {
            Some(h) => {
                let local = join_path(h, ".local");
                Some(join_path(local.as_str(), "state"))
            },
            None => None,
        },
    };
    let file = match surface {
        CommandSurface::Shell => "swat-command.history",
        CommandSurface::Tui => "swat-ui-tui.history",
    };
    match base {
        Some(b) => {
            let dir = join_path(b.as_str(), "swat-rs");
            Some(join_path(dir.as_str(), file))
        },
        None => None,
    }
}

/// What a shell line asks for.
#[derive(Clone, Debug, PartialEq, Eq)]
pub enum ShellStep {
    /// A blank line: nothing.
    Skip,
    /// `quit` or `exit`: leave.
    Quit,
    /// `sleep <ms>`: wait.
    Sleep(u64),
    /// Anything else: run the (trimmed) command.
    Execute(String),
}

/// What a shell line asks for: nothing for a blank line, leaving for
/// `quit` and `exit`, a wait for `sleep <ms>` (an error where the duration
/// is no number), else the trimmed command.
pub fn shell_step(line: &str) -> (r: SwatResult<ShellStep>)
    ensures
        ({
            let c = trim(line@);
            if c.len() == 0 {
                r matches Ok(ShellStep::Skip)
            } else if c == "quit"@ || c == "exit"@ {
                r matches Ok(ShellStep::Quit)
            } else if starts_with(c, "sleep "@) {
                let d = c.subrange(6, c.len() as int);
                match parse_uint(d, u64::MAX as nat) {
                    Ok(ms) => r matches Ok(ShellStep::Sleep(x)) && x == ms,
                    Err(_) => r is Err,
                }
            } else {
                r matches Ok(ShellStep::Execute(x)) && x@ == c
            }
        }),
{
    let command = trim_str(line);
    if command.unicode_len() == 0 {
        return Ok(ShellStep::Skip);
    }
    if str_eq(command, "quit") || str_eq(command, "exit") {
        return Ok(ShellStep::Quit);
    }
    match strip_prefix(command, "sleep ") {
        Some(rest) => {
            proof {
                reveal_strlit("sleep ");
            }
            match parse_uint_str(rest, u64::MAX) {
                Ok(ms) => Ok(ShellStep::Sleep(ms)),
                Err(_) => {
                    let mut m = owned("invalid sleep duration '");
                    push_str(&mut m, trim_str(rest));
                    push_str(&mut m, "'");
                    Err(SwatError::new(m))
                },
            }
        },
        None => Ok(ShellStep::Execute(owned(command))),
    }
}

} // verus!
