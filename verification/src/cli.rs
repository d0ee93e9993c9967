//! The command-line surface: the option and subcommand grammar of the tool,
//! parsed by a verified recursive-descent parser. The grammar is stated as a
//! spec function and the parser is proved to follow it exactly.
use vstd::prelude::*;

use crate::text::str_eq;

verus! {

use vstd::string::StringExecFns;

/// A parsed invocation: global options and the chosen command.
pub struct Cli {
    /// The subcommand to run.
    pub command: Commands,
    /// Path to the databases configuration file.
    pub config: String,
    /// Host directory to store backups.
    pub backup_dir: String,
    /// Whether verbose logging was requested.
    pub verbose: bool,
}

/// The subcommands of the tool.
pub enum Commands {
    /// Run backups for all configured databases, or for one named client.
    Backup {
        /// Backup only a specific client by name.
        client: Option<String>,
    },
    /// List all configured databases.
    List,
    /// Check status of the runtime containers.
    Status,
    /// Clean old backup files, for all clients or for one named client.
    Clean {
        /// Clean backups for a specific client by name.
        client: Option<String>,
    },
    /// List existing backup files, optionally for one database.
    ListBackups {
        /// List backups for a specific database.
        database: Option<String>,
    },
}

/// Why an invocation was refused. Help and version requests end parsing
/// early and are reported here too, as the caller prints and exits.
#[derive(Debug)]
pub enum ParseError {
    /// `-h` or `--help` was given.
    HelpRequested,
    /// `-V` or `--version` was given.
    VersionRequested,
    /// An option that takes a value was last on the line.
    MissingValue,
    /// An argument that belongs to no option or subcommand.
    UnknownArgument,
    /// No subcommand was given.
    MissingCommand,
}

/// The ghost image of a parsed invocation.
pub struct CliV {
    /// The subcommand to run.
    pub command: CommandsV,
    /// Path to the databases configuration file.
    pub config: Seq<char>,
    /// Host directory to store backups.
    pub backup_dir: Seq<char>,
    /// Whether verbose logging was requested.
    pub verbose: bool,
}

/// The ghost image of a subcommand.
pub enum CommandsV {
    /// Run backups, for all databases or one client.
    Backup {
        /// The named client, if one was given.
        client: Option<Seq<char>>,
    },
    /// List configured databases.
    List,
    /// Check container status.
    Status,
    /// Clean old backups, for all clients or one.
    Clean {
        /// The named client, if one was given.
        client: Option<Seq<char>>,
    },
    /// List stored backup files.
    ListBackups {
        /// The named database, if one was given.
        database: Option<Seq<char>>,
    },
}

/// The ghost image of an optional string argument.
pub open spec fn opt_view(o: Option<String>) -> Option<Seq<char>> {
    match o {
        Some(s) => Some(s@),
        None => None,
    }
}

impl View for Commands {
    type V = CommandsV;

    open spec fn view(&self) -> CommandsV {
        match self {
            Commands::Backup { client } => CommandsV::Backup { client: opt_view(*client) },
            Commands::List => CommandsV::List,
            Commands::Status => CommandsV::Status,
            Commands::Clean { client } => CommandsV::Clean { client: opt_view(*client) },
            Commands::ListBackups { database } => CommandsV::ListBackups {
                database: opt_view(*database),
            },
        }
    }
}

impl View for Cli {
    type V = CliV;

    open spec fn view(&self) -> CliV {
        CliV {
            command: self.command@,
            config: self.config@,
            backup_dir: self.backup_dir@,
            verbose: self.verbose,
        }
    }
}

/// Parses the arguments of a subcommand that accepts one optional valued
/// option (its short and long spelling): no arguments yield nothing, the
/// option must be followed by its value, the last occurrence wins, help and
/// version requests interrupt, anything else is refused.
pub open spec fn spec_parse_opt_value(
    args: Seq<Seq<char>>,
    i: int,
    short: Seq<char>,
    long: Seq<char>,
) -> Result<Option<Seq<char>>, ParseError>
    decreases args.len() - i,
{
    if i >= args.len() {
        Ok(None)
    } else if args[i] == "-h"@ || args[i] == "--help"@ {
        Err(ParseError::HelpRequested)
    } else if args[i] == "-V"@ || args[i] == "--version"@ {
        Err(ParseError::VersionRequested)
    } else if args[i] == short || args[i] == long {
        if i + 1 < args.len() {
            match spec_parse_opt_value(args, i + 2, short, long) {
                Ok(None) => Ok(Some(args[i + 1])),
                Ok(Some(v)) => Ok(Some(v)),
                Err(e) => Err(e),
            }
        } else {
            Err(ParseError::MissingValue)
        }
    } else {
        Err(ParseError::UnknownArgument)
    }
}

/// Parses the arguments of a subcommand that accepts none: help and version
/// requests interrupt, anything else is refused.
pub open spec fn spec_parse_no_value(args: Seq<Seq<char>>, i: int) -> Result<(), ParseError>
    decreases args.len() - i,
{
    if i >= args.len() {
        Ok(())
    } else if args[i] == "-h"@ || args[i] == "--help"@ {
        Err(ParseError::HelpRequested)
    } else if args[i] == "-V"@ || args[i] == "--version"@ {
        Err(ParseError::VersionRequested)
    } else {
        Err(ParseError::UnknownArgument)
    }
}

/// Parses global options until a subcommand is found, then hands the rest to
/// that subcommand; `config`, `backup_dir` and `verbose` carry the values
/// seen so far.
pub open spec fn spec_parse_globals(
    args: Seq<Seq<char>>,
    i: int,
    config: Seq<char>,
    backup_dir: Seq<char>,
    verbose: bool,
) -> Result<CliV, ParseError>
    decreases args.len() - i,
{
    if i >= args.len() {
        Err(ParseError::MissingCommand)
    } else if args[i] == "-h"@ || args[i] == "--help"@ {
        Err(ParseError::HelpRequested)
    } else if args[i] == "-V"@ || args[i] == "--version"@ {
        Err(ParseError::VersionRequested)
    } else if args[i] == "-v"@ || args[i] == "--verbose"@ {
        spec_parse_globals(args, i + 1, config, backup_dir, true)
    } else if args[i] == "-c"@ || args[i] == "--config"@ {
        if i + 1 < args.len() {
            spec_parse_globals(args, i + 2, args[i + 1], backup_dir, verbose)
        } else {
            Err(ParseError::MissingValue)
        }
    } else if args[i] == "-b"@ || args[i] == "--backup-dir"@ {
        if i + 1 < args.len() {
            spec_parse_globals(args, i + 2, config, args[i + 1], verbose)
        } else {
            Err(ParseError::MissingValue)
        }
    } else if args[i] == "backup"@ {
        match spec_parse_opt_value(args, i + 1, "-c"@, "--client"@) {
            Ok(client) => Ok(
                CliV { command: CommandsV::Backup { client }, config, backup_dir, verbose },
            ),
            Err(e) => Err(e),
        }
    } else if args[i] == "clean"@ {
        match spec_parse_opt_value(args, i + 1, "-c"@, "--client"@) {
            Ok(client) => Ok(
                CliV { command: CommandsV::Clean { client }, config, backup_dir, verbose },
            ),
            Err(e) => Err(e),
        }
    } else if args[i] == "list-backups"@ {
        match spec_parse_opt_value(args, i + 1, "-d"@, "--database"@) {
            Ok(database) => Ok(
                CliV { command: CommandsV::ListBackups { database }, config, backup_dir, verbose },
            ),
            Err(e) => Err(e),
        }
    } else if args[i] == "list"@ {
        match spec_parse_no_value(args, i + 1) {
            Ok(_) => Ok(CliV { command: CommandsV::List, config, backup_dir, verbose }),
            Err(e) => Err(e),
        }
    } else if args[i] == "status"@ {
        match spec_parse_no_value(args, i + 1) {
            Ok(_) => Ok(CliV { command: CommandsV::Status, config, backup_dir, verbose }),
            Err(e) => Err(e),
        }
    } else {
        Err(ParseError::UnknownArgument)
    }
}

/// The whole grammar: the leading program name is skipped, the global
/// options default to the packaged configuration path, the standard backup
/// root and quiet logging.
pub open spec fn spec_parse(args: Seq<Seq<char>>) -> Result<CliV, ParseError> {
    if args.len() == 0 {
        Err(ParseError::MissingCommand)
    } else {
        spec_parse_globals(
            args,
            1,
            "/etc/odoo-backup/config.json"@,
            "/var/backups/odoo"@,
            false,
        )
    }
}

fn parse_opt_value(args: &[&str], i: usize, short: &str, long: &str) -> (r: Result<
    Option<String>,
    ParseError,
>)
    requires
        i <= args@.len(),
    ensures
        ({
            let s = spec_parse_opt_value(args.deep_view(), i as int, short@, long@);
            match r {
                Ok(o) => s == Ok::<Option<Seq<char>>, ParseError>(opt_view(o)),
                Err(e) => s == Err::<Option<Seq<char>>, ParseError>(e),
            }
        }),
    decreases args@.len() - i,
{
    if i >= args.len() {
        return Ok(None);
    }
    let a = args[i];
    assert(a@ == args.deep_view()[i as int]);
    if str_eq(a, "-h") || str_eq(a, "--help") {
        Err(ParseError::HelpRequested)
    } else if str_eq(a, "-V") || str_eq(a, "--version") {
        Err(ParseError::VersionRequested)
    } else if str_eq(a, short) || str_eq(a, long) {
        if i + 1 < args.len() {
            let value = args[i + 1];
            assert(value@ == args.deep_view()[i as int + 1]);
            match parse_opt_value(args, i + 2, short, long) {
                Ok(None) => Ok(Some(value.to_owned())),
                Ok(Some(v)) => Ok(Some(v)),
                Err(e) => Err(e),
            }
        } else {
            Err(ParseError::MissingValue)
        }
    } else {
        Err(ParseError::UnknownArgument)
    }
}

fn parse_no_value(args: &[&str], i: usize) -> (r: Result<(), ParseError>)
    requires
        i <= args@.len(),
    ensures
        r == spec_parse_no_value(args.deep_view(), i as int),
{
    if i >= args.len() {
        return Ok(());
    }
    let a = args[i];
    assert(a@ == args.deep_view()[i as int]);
    if str_eq(a, "-h") || str_eq(a, "--help") {
        Err(ParseError::HelpRequested)
    } else if str_eq(a, "-V") || str_eq(a, "--version") {
        Err(ParseError::VersionRequested)
    } else {
        Err(ParseError::UnknownArgument)
    }
}

fn parse_globals(args: &[&str], i: usize, config: String, backup_dir: String, verbose: bool) -> (r:
    Result<Cli, ParseError>)
    requires
        i <= args@.len(),
    ensures
        ({
            let s = spec_parse_globals(args.deep_view(), i as int, config@, backup_dir@, verbose);
            match r {
                Ok(c) => s == Ok::<CliV, ParseError>(c@),
                Err(e) => s == Err::<CliV, ParseError>(e),
            }
        }),
    decreases args@.len() - i,
{
    if i >= args.len() {
        return Err(ParseError::MissingCommand);
    }
    let a = args[i];
    assert(a@ == args.deep_view()[i as int]);
    if str_eq(a, "-h") || str_eq(a, "--help") {
        Err(ParseError::HelpRequested)
    } else if str_eq(a, "-V") || str_eq(a, "--version") {
        Err(ParseError::VersionRequested)
    } else if str_eq(a, "-v") || str_eq(a, "--verbose") {
        parse_globals(args, i + 1, config, backup_dir, true)
    } else if str_eq(a, "-c") || str_eq(a, "--config") {
        if i + 1 < args.len() {
            let value = args[i + 1];
            assert(value@ == args.deep_view()[i as int + 1]);
            parse_globals(args, i + 2, value.to_owned(), backup_dir, verbose)
        } else {
            Err(ParseError::MissingValue)
        }
    } else if str_eq(a, "-b") || str_eq(a, "--backup-dir") {
        if i + 1 < args.len() {
            let value = args[i + 1];
            assert(value@ == args.deep_view()[i as int + 1]);
            parse_globals(args, i + 2, config, value.to_owned(), verbose)
        } else {
            Err(ParseError::MissingValue)
        }
    } else if str_eq(a, "backup") {
        match parse_opt_value(args, i + 1, "-c", "--client") {
            Ok(client) => Ok(
                Cli { command: Commands::Backup { client }, config, backup_dir, verbose },
            ),
            Err(e) => Err(e),
        }
    } else if str_eq(a, "clean") {
        match parse_opt_value(args, i + 1, "-c", "--client") {
            Ok(client) => Ok(
                Cli { command: Commands::Clean { client }, config, backup_dir, verbose },
            ),
            Err(e) => Err(e),
        }
    } else if str_eq(a, "list-backups") {
        match parse_opt_value(args, i + 1, "-d", "--database") {
            Ok(database) => Ok(
                Cli { command: Commands::ListBackups { database }, config, backup_dir, verbose },
            ),
            Err(e) => Err(e),
        }
    } else if str_eq(a, "list") {
        match parse_no_value(args, i + 1) {
            Ok(_) => Ok(Cli { command: Commands::List, config, backup_dir, verbose }),
            Err(e) => Err(e),
        }
    } else if str_eq(a, "status") {
        match parse_no_value(args, i + 1) {
            Ok(_) => Ok(Cli { command: Commands::Status, config, backup_dir, verbose }),
            Err(e) => Err(e),
        }
    } else {
        Err(ParseError::UnknownArgument)
    }
}

impl Cli {
    /// Parses an argument list, the program name first, following
    /// `spec_parse` exactly: global options may precede the subcommand, the
    /// subcommand's own options follow it, and help or version requests are
    /// reported as errors since they end the invocation early.
    pub fn try_parse_from(args: &[&str]) -> (r: Result<Cli, ParseError>)
        ensures
            ({
                let s = spec_parse(args.deep_view());
                match r {
                    Ok(c) => s == Ok::<CliV, ParseError>(c@),
                    Err(e) => s == Err::<CliV, ParseError>(e),
                }
            }),
    {
        if args.len() == 0 {
            return Err(ParseError::MissingCommand);
        }
        parse_globals(
            args,
            1,
            "/etc/odoo-backup/config.json".to_owned(),
            "/var/backups/odoo".to_owned(),
            false,
        )
    }
}

} // verus!
