//! The decisions of the `adi flags` commands: which command runs, what arguments it
//! needs, which states it reports on, and how a state's files are summed up.

use vstd::prelude::*;
use crate::assoc::{assoc_keys, assoc_view};
use crate::flags::{validate_state, CheckMode, FileStatus, FlagEntry, FlagsConfig, FlagsError};
use crate::settings::string_views;
use crate::text::str_eq;

verus! {

/// A subcommand of `adi flags`.
#[derive(Clone, Copy, Debug, PartialEq, Eq, Structural)]
pub enum FlagsCommand {
    /// `set`: flag files as clean.
    SetFlags,
    Status,
    List,
    Clear,
    States,
    Init,
}

/// The usage line printed without a subcommand.
pub const FLAGS_USAGE: &'static str = "Usage: adi flags <set|status|list|clear|states|init>";

/// The command a subcommand names.
pub open spec fn command_named(s: Seq<char>) -> Option<FlagsCommand> {
    if s == "set"@ {
        Some(FlagsCommand::SetFlags)
    } else if s == "status"@ {
        Some(FlagsCommand::Status)
    } else if s == "list"@ {
        Some(FlagsCommand::List)
    } else if s == "clear"@ {
        Some(FlagsCommand::Clear)
    } else if s == "states"@ {
        Some(FlagsCommand::States)
    } else if s == "init"@ {
        Some(FlagsCommand::Init)
    } else {
        None
    }
}

/// The command to run: `Ok(None)` without a subcommand (the usage is shown), an error
/// `Unknown command: <name>` for a name that is not a command.
pub fn parse_command(subcommand: Option<&str>) -> (r: Result<Option<FlagsCommand>, String>)
    ensures
        match subcommand {
            None => r == Ok::<Option<FlagsCommand>, String>(None),
            Some(s) => match command_named(s@) {
                Some(c) => r == Ok::<Option<FlagsCommand>, String>(Some(c)),
                None => r matches Err(m) && m@ == "Unknown command: "@ + s@,
            },
        },
{
    proof {
        reveal_strlit("set");
        reveal_strlit("status");
        reveal_strlit("list");
        reveal_strlit("clear");
        reveal_strlit("states");
        reveal_strlit("init");
    }
    match subcommand {
        None => Ok(None),
        Some(s) => {
            if str_eq(s, "set") {
                Ok(Some(FlagsCommand::SetFlags))
            } else if str_eq(s, "status") {
                Ok(Some(FlagsCommand::Status))
            } else if str_eq(s, "list") {
                Ok(Some(FlagsCommand::List))
            } else if str_eq(s, "clear") {
                Ok(Some(FlagsCommand::Clear))
            } else if str_eq(s, "states") {
                Ok(Some(FlagsCommand::States))
            } else if str_eq(s, "init") {
                Ok(Some(FlagsCommand::Init))
            } else {
                let mut m = "Unknown command: ".to_owned();
                m.append(s);
                Err(m)
            }
        },
    }
}

/// A command as the plugin lists it.
#[derive(Clone, Debug)]
pub struct CommandInfo {
    pub name: String,
    pub description: String,
    pub usage: String,
}

fn info(name: &str, description: &str, usage: &str) -> (r: CommandInfo)
    ensures
        r.name@ == name@,
        r.description@ == description@,
        r.usage@ == usage@,
{
    CommandInfo { name: name.to_owned(), description: description.to_owned(), usage: usage.to_owned() }
}

/// The commands of the plugin, with their descriptions and usage lines.
pub fn list_commands() -> (r: Vec<CommandInfo>)
    ensures
        r@.len() == 6,
        r@[0].name@ == "set"@ && r@[0].description@ == "Flag files as clean for a state"@
            && r@[0].usage@ == "flags set <state> <files...>"@,
        r@[1].name@ == "status"@ && r@[1].description@ == "Show dirty files"@ && r@[1].usage@
            == "flags status [state]"@,
        r@[2].name@ == "list"@ && r@[2].description@ == "List all tracked files"@ && r@[2].usage@
            == "flags list [state]"@,
        r@[3].name@ == "clear"@ && r@[3].description@ == "Remove flags"@ && r@[3].usage@
            == "flags clear <state> [files...]"@,
        r@[4].name@ == "states"@ && r@[4].description@ == "List configured states"@ && r@[4].usage@
            == "flags states"@,
        r@[5].name@ == "init"@ && r@[5].description@ == "Create default .adi/flags.toml"@
            && r@[5].usage@ == "flags init"@,
{
    let mut r: Vec<CommandInfo> = Vec::new();
    r.push(info("set", "Flag files as clean for a state", "flags set <state> <files...>"));
    r.push(info("status", "Show dirty files", "flags status [state]"));
    r.push(info("list", "List all tracked files", "flags list [state]"));
    r.push(info("clear", "Remove flags", "flags clear <state> [files...]"));
    r.push(info("states", "List configured states", "flags states"));
    r.push(info("init", "Create default .adi/flags.toml", "flags init"));
    r
}

fn rest_of(args: &Vec<String>) -> (r: Vec<String>)
    requires
        args@.len() > 0,
    ensures
        string_views(r@) == string_views(args@.skip(1)),
{
    let mut r: Vec<String> = Vec::new();
    let mut i: usize = 1;
    while i < args.len()
        invariant
            1 <= i <= args@.len(),
            string_views(r@) == string_views(args@.subrange(1, i as int)),
        decreases args@.len() - i,
    {
        let ghost before = r@;
        let e = args[i].clone();
        r.push(e);
        assert(args@.subrange(1, i + 1) =~= args@.subrange(1, i as int).push(args@[i as int]));
        assert(string_views(r@) =~= string_views(before).push(e@));
        i = i + 1;
    }
    assert(args@.subrange(1, args@.len() as int) =~= args@.skip(1));
    r
}

/// The state and files of `adi flags set <state> <files...>`: the state is required, and
/// so is at least one file.
pub fn set_arguments(args: &Vec<String>) -> (r: Result<(String, Vec<String>), FlagsError>)
    ensures
        match r {
            Ok((state, files)) => args@.len() > 1 && state@ == args@[0]@ && string_views(files@)
                == string_views(args@.skip(1)),
            Err(FlagsError::Other(m)) => (args@.len() == 0 && m@ == "Usage: adi flags set <state> <files...>"@)
                || (args@.len() == 1 && m@ == "No files specified. Usage: adi flags set <state> <files...>"@),
            Err(_) => false,
        },
{
    if args.len() == 0 {
        return Err(FlagsError::Other("Usage: adi flags set <state> <files...>".to_owned()));
    }
    let files = rest_of(args);
    assert(string_views(files@).len() == files@.len());
    assert(string_views(args@.skip(1)).len() == args@.len() - 1);
    if files.len() == 0 {
        return Err(FlagsError::Other("No files specified. Usage: adi flags set <state> <files...>".to_owned()));
    }
    Ok((args[0].clone(), files))
}

/// The state and files of `adi flags clear <state> [files...]`: the state is required;
/// no files means all of them.
pub fn clear_arguments(args: &Vec<String>) -> (r: Result<(String, Vec<String>), FlagsError>)
    ensures
        match r {
            Ok((state, files)) => args@.len() > 0 && state@ == args@[0]@ && string_views(files@)
                == string_views(args@.skip(1)),
            Err(FlagsError::Other(m)) => args@.len() == 0 && m@ == "Usage: adi flags clear <state> [files...]"@,
            Err(_) => false,
        },
{
    if args.len() == 0 {
        return Err(FlagsError::Other("Usage: adi flags clear <state> [files...]".to_owned()));
    }
    Ok((args[0].clone(), rest_of(args)))
}

/// The states `status` and `list` report on: the one named, which must be configured, or
/// every configured state.
pub fn reported_states(config: &FlagsConfig, filter: Option<&str>) -> (r: Result<Vec<String>, FlagsError>)
    ensures
        match filter {
            Some(s) => match r {
                Ok(v) => assoc_view(config.states@).contains_key(s@) && string_views(v@) == seq![s@],
                Err(e) => !assoc_view(config.states@).contains_key(s@) && (e matches FlagsError::UnknownState(n) && n@ == s@),
            },
            None => r matches Ok(v) && string_views(v@) == assoc_keys(config.states@),
        },
{
    match filter {
        Some(s) => {
            match validate_state(config, s) {
                Ok(()) => {
                    let mut v: Vec<String> = Vec::new();
                    v.push(s.to_owned());
                    assert(string_views(v@) =~= seq![s@]);
                    Ok(v)
                },
                Err(e) => Err(e),
            }
        },
        None => {
            let mut v: Vec<String> = Vec::new();
            let mut i: usize = 0;
            while i < config.states.len()
                invariant
                    i <= config.states@.len(),
                    string_views(v@) == assoc_keys(config.states@.take(i as int)),
                decreases config.states@.len() - i,
            {
                let ghost before = v@;
                let e = config.states[i].0.clone();
                v.push(e);
                assert(config.states@.take(i + 1) =~= config.states@.take(i as int).push(config.states@[i as int]));
                assert(string_views(v@) =~= string_views(before).push(e@));
                assert(string_views(v@) =~= assoc_keys(config.states@.take(i + 1)));
                i = i + 1;
            }
            assert(config.states@.take(config.states@.len() as int) =~= config.states@);
            Ok(v)
        },
    }
}

/// The number of files that are not clean.
pub open spec fn dirty_in(results: Seq<(FlagEntry, FileStatus)>) -> nat
    decreases results.len(),
{
    if results.len() == 0 {
        0
    } else {
        dirty_in(results.drop_last()) + if results.last().1 == FileStatus::Clean { 0nat } else { 1nat }
    }
}

proof fn lemma_dirty_bounded(results: Seq<(FlagEntry, FileStatus)>)
    ensures
        dirty_in(results) <= results.len(),
    decreases results.len(),
{
    if results.len() > 0 {
        lemma_dirty_bounded(results.drop_last());
    }
}

/// How many of a state's files are dirty or missing.
pub fn dirty_count(results: &Vec<(FlagEntry, FileStatus)>) -> (r: usize)
    ensures
        r == dirty_in(results@),
        r <= results@.len(),
{
    let mut n: usize = 0;
    let mut i: usize = 0;
    while i < results.len()
        invariant
            i <= results@.len(),
            n == dirty_in(results@.take(i as int)),
            n <= i,
        decreases results@.len() - i,
    {
        assert(results@.take(i + 1).drop_last() =~= results@.take(i as int));
        assert(results@.take(i + 1).last() == results@[i as int]);
        if results[i].1 != FileStatus::Clean {
            n = n + 1;
        }
        i = i + 1;
    }
    assert(results@.take(results@.len() as int) =~= results@);
    n
}

/// What a file's line in the status report adds after its path.
pub fn status_note(status: FileStatus) -> (r: &'static str)
    ensures
        r@ == (match status {
            FileStatus::Clean => ""@,
            FileStatus::Dirty => "(modified)"@,
            FileStatus::Missing => "(missing)"@,
        }),
{
    match status {
        FileStatus::Clean => "",
        FileStatus::Dirty => "(modified)",
        FileStatus::Missing => "(missing)",
    }
}

/// How the check mode is described.
pub fn check_mode_label(mode: CheckMode) -> (r: &'static str)
    ensures
        r@ == (match mode {
            CheckMode::Fast => "fast (mtime only)"@,
            CheckMode::Strict => "strict (mtime + hash)"@,
        }),
{
    match mode {
        CheckMode::Fast => "fast (mtime only)",
        CheckMode::Strict => "strict (mtime + hash)",
    }
}

} // verus!
