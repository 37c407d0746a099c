//! The command registry: how a command is listed on each surface, how a
//! command or a help topic is looked up, and the help overview.
use vstd::prelude::*;
use crate::command::CommandSurface;
use crate::repository::{ascii_lower, ascii_lowercase, to_ascii_lower};
use crate::text::{join, owned, push_str, str_eq, views};

verus! {

/// A command as the registry describes it.
#[derive(Clone, Debug, PartialEq, Eq)]
pub struct CommandDescriptor {
    pub key: String,
    pub synopsis: String,
    pub summary: String,
    pub aliases: Vec<String>,
    pub tui_supported: bool,
}

/// A help topic: its aliases, summary, the keys of its commands, notes and
/// examples.
#[derive(Clone, Debug, PartialEq, Eq)]
pub struct CommandFamily {
    pub topic: String,
    pub aliases: Vec<String>,
    pub summary: String,
    pub commands: Vec<String>,
    pub notes: Vec<String>,
    pub examples: Vec<String>,
}

/// The synopsis of a command on `surface`: marked `[shell]` in the
/// terminal UI where it runs only from the shell.
pub open spec fn synopsis_on(c: CommandDescriptor, surface: CommandSurface) -> Seq<char> {
    if surface == CommandSurface::Tui && !c.tui_supported {
        c.synopsis@ + " [shell]"@
    } else {
        c.synopsis@
    }
}

/// The synopsis of a command on `surface`.
pub fn format_synopsis(command: &CommandDescriptor, surface: CommandSurface) -> (r: String)
    ensures
        r@ == synopsis_on(*command, surface),
{
    let tui = match surface {
        CommandSurface::Tui => true,
        CommandSurface::Shell => false,
    };
    if tui && !command.tui_supported {
        let mut s = command.synopsis.clone();
        push_str(&mut s, " [shell]");
        s
    } else {
        command.synopsis.clone()
    }
}

/// The help line of a command: its synopsis, two spaces, its summary.
pub fn format_command_line(command: &CommandDescriptor, surface: CommandSurface) -> (r: String)
    ensures
        r@ == synopsis_on(*command, surface) + "  "@ + command.summary@,
{
    let mut s = format_synopsis(command, surface);
    push_str(&mut s, "  ");
    push_str(&mut s, command.summary.as_str());
    s
}

/// Whether a command is offered for completion on `surface`.
pub fn command_available_for_completion(command: &CommandDescriptor, surface: CommandSurface) -> (r: bool)
    ensures
        r == (surface == CommandSurface::Shell || command.tui_supported),
{
    match surface {
        CommandSurface::Shell => true,
        CommandSurface::Tui => command.tui_supported,
    }
}

/// Whether `a` and `b` are equal up to ASCII case.
pub fn eq_ignore_ascii_case(a: &str, b: &str) -> (r: bool)
    ensures
        r == (ascii_lowercase(a@) == ascii_lowercase(b@)),
{
    let n = a.unicode_len();
    let m = b.unicode_len();
    if n != m {
        proof {
            assert(ascii_lowercase(a@).len() != ascii_lowercase(b@).len());
        }
        return false;
    }
    let mut i: usize = 0;
    while i < n
        invariant
            n == a@.len(),
            m == b@.len(),
            n == m,
            i <= n,
            forall|k: int| 0 <= k < i ==> ascii_lower(a@[k]) == ascii_lower(b@[k]),
        decreases n - i,
    {
        if to_ascii_lower(a.get_char(i)) != to_ascii_lower(b.get_char(i)) {
            proof {
                assert(ascii_lowercase(a@)[i as int] != ascii_lowercase(b@)[i as int]);
            }
            return false;
        }
        i = i + 1;
    }
    proof {
        assert(ascii_lowercase(a@) =~= ascii_lowercase(b@));
    }
    true
}

/// Whether some alias equals `key` up to ASCII case.
pub open spec fn alias_matches(aliases: Seq<String>, key: Seq<char>) -> bool {
    exists|j: int| 0 <= j < aliases.len() && ascii_lowercase(#[trigger] aliases[j]@) == ascii_lowercase(key)
}

fn any_alias(aliases: &Vec<String>, key: &str) -> (r: bool)
    ensures
        r == alias_matches(aliases@, key@),
{
    let n = aliases.len();
    let mut j: usize = 0;
    while j < n
        invariant
            n == aliases@.len(),
            j <= n,
            forall|k: int| 0 <= k < j ==> ascii_lowercase(#[trigger] aliases@[k]@) != ascii_lowercase(key@),
        decreases n - j,
    {
        if eq_ignore_ascii_case(aliases[j].as_str(), key) {
            return true;
        }
        j = j + 1;
    }
    false
}

/// `c` is looked up by `key`: its own key exactly, or one of its aliases up
/// to ASCII case.
pub open spec fn command_matches(c: CommandDescriptor, key: Seq<char>) -> bool {
    c.key@ == key || alias_matches(c.aliases@, key)
}

/// The first command of `cs` that `key` looks up.
pub open spec fn first_command(cs: Seq<CommandDescriptor>, key: Seq<char>) -> Option<CommandDescriptor>
    decreases cs.len(),
{
    if cs.len() == 0 {
        None
    } else if command_matches(cs[0], key) {
        Some(cs[0])
    } else {
        first_command(cs.drop_first(), key)
    }
}

/// The first command that `key` looks up.
pub fn find_command<'a>(commands: &'a Vec<CommandDescriptor>, key: &str) -> (r: Option<&'a CommandDescriptor>)
    ensures
        match r {
            Some(c) => first_command(commands@, key@) == Some(*c),
            None => first_command(commands@, key@) is None,
        },
{
    let n = commands.len();
    let mut i: usize = 0;
    proof {
        assert(commands@.skip(0) =~= commands@);
    }
    while i < n
        invariant
            n == commands@.len(),
            i <= n,
            first_command(commands@, key@) == first_command(commands@.skip(i as int), key@),
        decreases n - i,
    {
        let c = &commands[i];
        proof {
            assert(commands@.skip(i as int)[0] == commands@[i as int]);
            assert(commands@.skip(i as int).drop_first() =~= commands@.skip(i as int + 1));
        }
        if str_eq(c.key.as_str(), key) || any_alias(&c.aliases, key) {
            return Some(c);
        }
        i = i + 1;
    }
    None
}

/// `f` is looked up by `topic`: its topic or one of its aliases, up to
/// ASCII case.
pub open spec fn family_matches(f: CommandFamily, topic: Seq<char>) -> bool {
    ascii_lowercase(f.topic@) == ascii_lowercase(topic) || alias_matches(f.aliases@, topic)
}

/// The first help topic that `topic` looks up.
pub fn find_family<'a>(families: &'a Vec<CommandFamily>, topic: &str) -> (r: Option<&'a CommandFamily>)
    ensures
        match r {
            Some(f) => exists|i: int| 0 <= i < families@.len() && families@[i] == *f && family_matches(*f, topic@)
                && forall|k: int| 0 <= k < i ==> !family_matches(#[trigger] families@[k], topic@),
            None => forall|k: int| 0 <= k < families@.len() ==> !family_matches(#[trigger] families@[k], topic@),
        },
{
    let n = families.len();
    let mut i: usize = 0;
    while i < n
        invariant
            n == families@.len(),
            i <= n,
            forall|k: int| 0 <= k < i ==> !family_matches(#[trigger] families@[k], topic@),
        decreases n - i,
    {
        let f = &families[i];
        if eq_ignore_ascii_case(f.topic.as_str(), topic) || any_alias(&f.aliases, topic) {
            return Some(f);
        }
        i = i + 1;
    }
    None
}


/// The synopses of the commands that `keys` look up, skipping keys that
/// look up none.
pub open spec fn family_synopses(keys: Seq<String>, cs: Seq<CommandDescriptor>, surface: CommandSurface) -> Seq<Seq<char>>
    decreases keys.len(),
{
    if keys.len() == 0 {
        Seq::empty()
    } else {
        let rest = family_synopses(keys.drop_last(), cs, surface);
        match first_command(cs, keys.last()@) {
            Some(c) => rest.push(synopsis_on(c, surface)),
            None => rest,
        }
    }
}

/// The overview line of a help topic: the topic, then its commands'
/// synopses.
pub open spec fn family_line(f: CommandFamily, cs: Seq<CommandDescriptor>, surface: CommandSurface) -> Seq<char> {
    f.topic@ + ": "@ + join(family_synopses(f.commands@, cs, surface), " | "@)
}

fn family_overview(family: &CommandFamily, commands: &Vec<CommandDescriptor>, surface: CommandSurface) -> (r: String)
    ensures
        r@ == family_line(*family, commands@, surface),
{
    let n = family.commands.len();
    let mut synopses: Vec<String> = Vec::new();
    let mut i: usize = 0;
    while i < n
        invariant
            n == family.commands@.len(),
            i <= n,
            views(synopses@) == family_synopses(family.commands@.take(i as int), commands@, surface),
        decreases n - i,
    {
        proof {
            assert(family.commands@.take(i as int + 1).drop_last() =~= family.commands@.take(i as int));
        }
        match find_command(commands, family.commands[i].as_str()) {
            Some(c) => {
                let line = format_synopsis(c, surface);
                let ghost before = views(synopses@);
                synopses.push(line);
                proof {
                    assert(views(synopses@) =~= before.push(line@));
                }
            },
            None => {},
        }
        i = i + 1;
    }
    proof {
        assert(family.commands@.take(n as int) =~= family.commands@);
    }
    let mut s = family.topic.clone();
    push_str(&mut s, ": ");
    let joined = crate::text::joined(&synopses, " | ");
    push_str(&mut s, joined.as_str());
    s
}

/// The help overview: one line per topic, then the examples and search
/// hints, and in the terminal UI a note on shell-only commands.
pub fn overview_lines(families: &Vec<CommandFamily>, commands: &Vec<CommandDescriptor>, surface: CommandSurface) -> (r: Vec<String>)
    ensures
        views(r@) == families@.map_values(|f: CommandFamily| family_line(f, commands@, surface)) + seq![
            "examples: help query | help stack | help source | help breakpoint"@,
            "search: help search <needle>"@,
        ] + if surface == CommandSurface::Tui {
            seq!["Commands marked [shell] are discoverable in the TUI help surface but execute from the shell today."@]
        } else {
            Seq::empty()
        },
{
    let n = families.len();
    let mut lines: Vec<String> = Vec::new();
    let mut i: usize = 0;
    while i < n
        invariant
            n == families@.len(),
            i <= n,
            views(lines@) == families@.take(i as int).map_values(|f: CommandFamily| family_line(f, commands@, surface)),
        decreases n - i,
    {
        let line = family_overview(&families[i], commands, surface);
        let ghost before = views(lines@);
        lines.push(line);
        proof {
            assert(views(lines@) =~= before.push(line@));
            assert(families@.take(i as int + 1).map_values(|f: CommandFamily| family_line(f, commands@, surface)) =~= families@.take(i as int).map_values(|f: CommandFamily| family_line(f, commands@, surface)).push(family_line(families@[i as int], commands@, surface)));
        }
        i = i + 1;
    }
    proof {
        assert(families@.take(n as int) =~= families@);
    }
    let ghost head = views(lines@);
    lines.push(owned("examples: help query | help stack | help source | help breakpoint"));
    lines.push(owned("search: help search <needle>"));
    let tui = match surface {
        CommandSurface::Tui => true,
        CommandSurface::Shell => false,
    };
    if tui {
        lines.push(owned("Commands marked [shell] are discoverable in the TUI help surface but execute from the shell today."));
    }
    proof {
        assert(views(lines@) =~= head + seq![
            "examples: help query | help stack | help source | help breakpoint"@,
            "search: help search <needle>"@,
        ] + if surface == CommandSurface::Tui {
            seq!["Commands marked [shell] are discoverable in the TUI help surface but execute from the shell today."@]
        } else {
            Seq::empty()
        });
    }
    lines
}

} // verus!
