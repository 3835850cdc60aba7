//! The command line of the daemon's tool: which command a word names, and
//! the errors a run ends with.
use vstd::prelude::*;
use crate::config::ConfigError;
use crate::text::{chars_of, range_eq};

verus! {

/// `std::io::Error`, carried through as it is.
#[verifier::external_type_specification]
#[verifier::external_body]
pub struct ExIoError(std::io::Error);

/// What ends a run of the tool.
#[derive(Debug)]
pub enum AppError {
    Io(std::io::Error),
    Config(ConfigError),
    Usage(String),
}

impl From<ConfigError> for AppError {
    fn from(value: ConfigError) -> (r: AppError) {
        AppError::Config(value)
    }
}

impl vstd::std_specs::convert::FromSpecImpl<ConfigError> for AppError {
    open spec fn obeys_from_spec() -> bool {
        true
    }

    open spec fn from_spec(v: ConfigError) -> AppError {
        AppError::Config(v)
    }
}

impl From<std::io::Error> for AppError {
    fn from(value: std::io::Error) -> (r: AppError) {
        AppError::Io(value)
    }
}

impl vstd::std_specs::convert::FromSpecImpl<std::io::Error> for AppError {
    open spec fn obeys_from_spec() -> bool {
        true
    }

    open spec fn from_spec(v: std::io::Error) -> AppError {
        AppError::Io(v)
    }
}

/// The text that `Display` gives an I/O error.
#[verifier::external_body]
fn io_error_text(e: &std::io::Error) -> String {
    format!("{e}")
}

impl AppError {
    /// The message the tool prints for the error: the I/O error's own text,
    /// `line <n>: <message>` for a configuration error, or the usage message.
    pub fn message(&self) -> (r: String)
        ensures
            match self {
                AppError::Io(_) => true,
                AppError::Config(e) => r@ == crate::config::config_error_text(e@),
                AppError::Usage(m) => r@ == m@,
            },
    {
        match self {
            AppError::Io(e) => io_error_text(e),
            AppError::Config(e) => e.text(),
            AppError::Usage(m) => m.clone(),
        }
    }
}

/// A command of the tool.
#[derive(PartialEq, Eq, Structural, Clone, Copy, Debug)]
pub enum CliCommand {
    Daemon,
    Once,
    Status,
    ForceThreshold,
    RandomLearning,
    ClearLearning,
    CheckLearning,
    CheckWhitelist,
    CheckIdle,
    Export,
    Import,
    SetupDefaults,
    UninstallRestore,
    PrintDefaultConfig,
    Help,
}

/// The command that `name` stands for (the older names are kept as
/// aliases).
pub open spec fn command_named(name: Seq<char>) -> Option<CliCommand> {
    if name == "daemon"@ {
        Some(CliCommand::Daemon)
    } else if name == "once"@ {
        Some(CliCommand::Once)
    } else if name == "status"@ {
        Some(CliCommand::Status)
    } else if name == "force-threshold"@ || name == "forcepush"@ {
        Some(CliCommand::ForceThreshold)
    } else if name == "random-learning"@ || name == "stringsfile"@ {
        Some(CliCommand::RandomLearning)
    } else if name == "clear-learning"@ || name == "clearlearningdata"@ {
        Some(CliCommand::ClearLearning)
    } else if name == "check-learning"@ || name == "checkdatalearning"@ {
        Some(CliCommand::CheckLearning)
    } else if name == "check-whitelist"@ || name == "checkwhitelist"@ {
        Some(CliCommand::CheckWhitelist)
    } else if name == "check-idle"@ || name == "checkidle"@ {
        Some(CliCommand::CheckIdle)
    } else if name == "export"@ {
        Some(CliCommand::Export)
    } else if name == "import"@ {
        Some(CliCommand::Import)
    } else if name == "setup-defaults"@ {
        Some(CliCommand::SetupDefaults)
    } else if name == "uninstall-restore"@ {
        Some(CliCommand::UninstallRestore)
    } else if name == "print-default-config"@ {
        Some(CliCommand::PrintDefaultConfig)
    } else if name == "help"@ || name == "-h"@ || name == "--help"@ {
        Some(CliCommand::Help)
    } else {
        None
    }
}

/// The command that `name` stands for, as `command_named` states it.
pub fn parse_command(name: &str) -> (r: Option<CliCommand>)
    ensures
        r == command_named(name@),
{
    let v = chars_of(name);
    assert(v@.subrange(0, v.len() as int) =~= name@);
    let n = v.len();
    if range_eq(&v, 0, n, "daemon") {
        Some(CliCommand::Daemon)
    } else if range_eq(&v, 0, n, "once") {
        Some(CliCommand::Once)
    } else if range_eq(&v, 0, n, "status") {
        Some(CliCommand::Status)
    } else if range_eq(&v, 0, n, "force-threshold") || range_eq(&v, 0, n, "forcepush") {
        Some(CliCommand::ForceThreshold)
    } else if range_eq(&v, 0, n, "random-learning") || range_eq(&v, 0, n, "stringsfile") {
        Some(CliCommand::RandomLearning)
    } else if range_eq(&v, 0, n, "clear-learning") || range_eq(&v, 0, n, "clearlearningdata") {
        Some(CliCommand::ClearLearning)
    } else if range_eq(&v, 0, n, "check-learning") || range_eq(&v, 0, n, "checkdatalearning") {
        Some(CliCommand::CheckLearning)
    } else if range_eq(&v, 0, n, "check-whitelist") || range_eq(&v, 0, n, "checkwhitelist") {
        Some(CliCommand::CheckWhitelist)
    } else if range_eq(&v, 0, n, "check-idle") || range_eq(&v, 0, n, "checkidle") {
        Some(CliCommand::CheckIdle)
    } else if range_eq(&v, 0, n, "export") {
        Some(CliCommand::Export)
    } else if range_eq(&v, 0, n, "import") {
        Some(CliCommand::Import)
    } else if range_eq(&v, 0, n, "setup-defaults") {
        Some(CliCommand::SetupDefaults)
    } else if range_eq(&v, 0, n, "uninstall-restore") {
        Some(CliCommand::UninstallRestore)
    } else if range_eq(&v, 0, n, "print-default-config") {
        Some(CliCommand::PrintDefaultConfig)
    } else if range_eq(&v, 0, n, "help") || range_eq(&v, 0, n, "-h") || range_eq(&v, 0, n, "--help") {
        Some(CliCommand::Help)
    } else {
        None
    }
}

/// The usage error for a word that names no command.
pub open spec fn unknown_command(name: Seq<char>) -> Seq<char> {
    "unknown command `"@ + name + "`"@
}

pub fn unknown_command_error(name: &str) -> (e: AppError)
    ensures
        e matches AppError::Usage(m) && m@ == unknown_command(name@),
{
    let mut m = String::from_str("unknown command `");
    m.append(name);
    m.append("`");
    AppError::Usage(m)
}

pub open spec fn threshold_usage() -> Seq<char> {
    "threshold must be 0-100"@
}

/// A threshold given on the command line: a number from 0 to 100, written
/// as `str::parse::<u8>` reads it.
pub open spec fn percent_of(value: Seq<char>) -> Option<u8> {
    match crate::text::parse_unsigned(value, 255) {
        Some(n) => if n <= 100 {
            Some(n as u8)
        } else {
            None
        },
        None => None,
    }
}

/// The threshold that `value` gives, or the usage error.
pub fn parse_percent(value: &str) -> (r: Result<u8, AppError>)
    ensures
        match r {
            Ok(n) => percent_of(value@) == Some(n),
            Err(e) => percent_of(value@) is None && (e matches AppError::Usage(m) && m@
                == threshold_usage()),
        },
{
    let v = chars_of(value);
    assert(v@.subrange(0, v.len() as int) =~= value@);
    match crate::text::parse_unsigned_range(&v, 0, v.len(), 255) {
        Some(n) => if n <= 100 {
            Ok(n as u8)
        } else {
            Err(AppError::Usage(String::from_str("threshold must be 0-100")))
        },
        None => Err(AppError::Usage(String::from_str("threshold must be 0-100"))),
    }
}

/// The usage error for `force-threshold` without a value.
pub fn missing_threshold_error() -> (e: AppError)
    ensures
        e matches AppError::Usage(m) && m@ == "missing threshold value"@,
{
    AppError::Usage(String::from_str("missing threshold value"))
}

/// Whether the arguments after `once` ask for a dry run.
pub fn wants_dry_run(args: &Vec<String>) -> (b: bool)
    ensures
        b == exists|i: int| 0 <= i < args.len() && (#[trigger] args@[i])@ == "--dry-run"@,
{
    let mut i: usize = 0;
    while i < args.len()
        invariant
            i <= args.len(),
            forall|j: int| 0 <= j < i ==> (#[trigger] args@[j])@ != "--dry-run"@,
        decreases args.len() - i,
    {
        let v = chars_of(args[i].as_str());
        assert(v@.subrange(0, v.len() as int) =~= v@);
        if range_eq(&v, 0, v.len(), "--dry-run") {
            return true;
        }
        i = i + 1;
    }
    false
}

/// The help text, line by line.
pub open spec fn help_lines() -> Seq<Seq<char>> {
    seq![
        "Utensil Poker Rust"@,
        ""@,
        "commands:"@,
        "  daemon"@,
        "  once [--dry-run]"@,
        "  status"@,
        "  force-threshold 0-100"@,
        "  random-learning"@,
        "  clear-learning"@,
        "  check-learning"@,
        "  check-whitelist"@,
        "  check-idle"@,
        "  export"@,
        "  import"@,
        "  setup-defaults"@,
        "  uninstall-restore"@,
        "  print-default-config"@,
    ]
}

pub fn help_text() -> (r: String)
    ensures
        r@ == crate::config::join_lines(help_lines()),
{
    let lines: Vec<&str> = vec![
        "Utensil Poker Rust",
        "",
        "commands:",
        "  daemon",
        "  once [--dry-run]",
        "  status",
        "  force-threshold 0-100",
        "  random-learning",
        "  clear-learning",
        "  check-learning",
        "  check-whitelist",
        "  check-idle",
        "  export",
        "  import",
        "  setup-defaults",
        "  uninstall-restore",
        "  print-default-config",
    ];
    let mut owned: Vec<String> = Vec::new();
    let mut i: usize = 0;
    while i < lines.len()
        invariant
            i <= lines.len(),
            owned.len() == i,
            forall|j: int| 0 <= j < i ==> (#[trigger] owned@[j])@ == lines@[j]@,
        decreases lines.len() - i,
    {
        owned.push(String::from_str(lines[i]));
        i = i + 1;
    }
    assert(crate::config::texts(owned@) =~= help_lines());
    crate::config::join_line_texts(&owned)
}


/// Each command word reaches its own command and only its own: the names
/// of the help list (and their older aliases) give these commands, and a
/// command is reached from no other name.
pub proof fn lemma_command_names()
    ensures
        command_named("--help"@) == Some(CliCommand::Help),
        command_named("-h"@) == Some(CliCommand::Help),
        command_named("check-idle"@) == Some(CliCommand::CheckIdle),
        command_named("check-learning"@) == Some(CliCommand::CheckLearning),
        command_named("check-whitelist"@) == Some(CliCommand::CheckWhitelist),
        command_named("checkdatalearning"@) == Some(CliCommand::CheckLearning),
        command_named("checkidle"@) == Some(CliCommand::CheckIdle),
        command_named("checkwhitelist"@) == Some(CliCommand::CheckWhitelist),
        command_named("clear-learning"@) == Some(CliCommand::ClearLearning),
        command_named("clearlearningdata"@) == Some(CliCommand::ClearLearning),
        command_named("daemon"@) == Some(CliCommand::Daemon),
        command_named("export"@) == Some(CliCommand::Export),
        command_named("force-threshold"@) == Some(CliCommand::ForceThreshold),
        command_named("forcepush"@) == Some(CliCommand::ForceThreshold),
        command_named("help"@) == Some(CliCommand::Help),
        command_named("import"@) == Some(CliCommand::Import),
        command_named("once"@) == Some(CliCommand::Once),
        command_named("print-default-config"@) == Some(CliCommand::PrintDefaultConfig),
        command_named("random-learning"@) == Some(CliCommand::RandomLearning),
        command_named("setup-defaults"@) == Some(CliCommand::SetupDefaults),
        command_named("status"@) == Some(CliCommand::Status),
        command_named("stringsfile"@) == Some(CliCommand::RandomLearning),
        command_named("uninstall-restore"@) == Some(CliCommand::UninstallRestore),
        forall|name: Seq<char>| #[trigger] command_named(name) == Some(CliCommand::Daemon) ==> name == "daemon"@,
        forall|name: Seq<char>| #[trigger] command_named(name) == Some(CliCommand::Once) ==> name == "once"@,
        forall|name: Seq<char>| #[trigger] command_named(name) == Some(CliCommand::Status) ==> name == "status"@,
        forall|name: Seq<char>| #[trigger] command_named(name) == Some(CliCommand::ForceThreshold) ==> name == "force-threshold"@ || name == "forcepush"@,
        forall|name: Seq<char>| #[trigger] command_named(name) == Some(CliCommand::RandomLearning) ==> name == "random-learning"@ || name == "stringsfile"@,
        forall|name: Seq<char>| #[trigger] command_named(name) == Some(CliCommand::ClearLearning) ==> name == "clear-learning"@ || name == "clearlearningdata"@,
        forall|name: Seq<char>| #[trigger] command_named(name) == Some(CliCommand::CheckLearning) ==> name == "check-learning"@ || name == "checkdatalearning"@,
        forall|name: Seq<char>| #[trigger] command_named(name) == Some(CliCommand::CheckWhitelist) ==> name == "check-whitelist"@ || name == "checkwhitelist"@,
        forall|name: Seq<char>| #[trigger] command_named(name) == Some(CliCommand::CheckIdle) ==> name == "check-idle"@ || name == "checkidle"@,
        forall|name: Seq<char>| #[trigger] command_named(name) == Some(CliCommand::Export) ==> name == "export"@,
        forall|name: Seq<char>| #[trigger] command_named(name) == Some(CliCommand::Import) ==> name == "import"@,
        forall|name: Seq<char>| #[trigger] command_named(name) == Some(CliCommand::SetupDefaults) ==> name == "setup-defaults"@,
        forall|name: Seq<char>| #[trigger] command_named(name) == Some(CliCommand::UninstallRestore) ==> name == "uninstall-restore"@,
        forall|name: Seq<char>| #[trigger] command_named(name) == Some(CliCommand::PrintDefaultConfig) ==> name == "print-default-config"@,
        forall|name: Seq<char>| #[trigger] command_named(name) == Some(CliCommand::Help) ==> name == "help"@ || name == "-h"@ || name == "--help"@,
{
    reveal_strlit("--help");
    reveal_strlit("-h");
    reveal_strlit("check-idle");
    reveal_strlit("check-learning");
    reveal_strlit("check-whitelist");
    reveal_strlit("checkdatalearning");
    reveal_strlit("checkidle");
    reveal_strlit("checkwhitelist");
    reveal_strlit("clear-learning");
    reveal_strlit("clearlearningdata");
    reveal_strlit("daemon");
    reveal_strlit("export");
    reveal_strlit("force-threshold");
    reveal_strlit("forcepush");
    reveal_strlit("help");
    reveal_strlit("import");
    reveal_strlit("once");
    reveal_strlit("print-default-config");
    reveal_strlit("random-learning");
    reveal_strlit("setup-defaults");
    reveal_strlit("status");
    reveal_strlit("stringsfile");
    reveal_strlit("uninstall-restore");
    assert("--help"@.len() == 6);
    assert("-h"@.len() == 2);
    assert("check-idle"@.len() == 10);
    assert("check-learning"@.len() == 14);
    assert("check-whitelist"@.len() == 15);
    assert("checkdatalearning"@.len() == 17);
    assert("checkidle"@.len() == 9);
    assert("checkwhitelist"@.len() == 14);
    assert("clear-learning"@.len() == 14);
    assert("clearlearningdata"@.len() == 17);
    assert("daemon"@.len() == 6);
    assert("export"@.len() == 6);
    assert("force-threshold"@.len() == 15);
    assert("forcepush"@.len() == 9);
    assert("help"@.len() == 4);
    assert("import"@.len() == 6);
    assert("once"@.len() == 4);
    assert("print-default-config"@.len() == 20);
    assert("random-learning"@.len() == 15);
    assert("setup-defaults"@.len() == 14);
    assert("status"@.len() == 6);
    assert("stringsfile"@.len() == 11);
    assert("uninstall-restore"@.len() == 17);
    assert("status"@[0] != "daemon"@[0]);
    assert("random-learning"@[0] != "force-threshold"@[0]);
    assert("check-learning"@[1] != "clear-learning"@[1]);
    assert("checkdatalearning"@[1] != "clearlearningdata"@[1]);
    assert("check-whitelist"@[0] != "force-threshold"@[0]);
    assert("check-whitelist"@[0] != "random-learning"@[0]);
    assert("checkwhitelist"@[1] != "clear-learning"@[1]);
    assert("checkwhitelist"@[5] != "check-learning"@[5]);
    assert("checkidle"@[0] != "forcepush"@[0]);
    assert("export"@[0] != "daemon"@[0]);
    assert("export"@[0] != "status"@[0]);
    assert("import"@[0] != "daemon"@[0]);
    assert("import"@[0] != "status"@[0]);
    assert("import"@[0] != "export"@[0]);
    assert("setup-defaults"@[0] != "clear-learning"@[0]);
    assert("setup-defaults"@[0] != "check-learning"@[0]);
    assert("setup-defaults"@[0] != "checkwhitelist"@[0]);
    assert("uninstall-restore"@[0] != "clearlearningdata"@[0]);
    assert("uninstall-restore"@[0] != "checkdatalearning"@[0]);
    assert("help"@[0] != "once"@[0]);
    assert("--help"@[0] != "daemon"@[0]);
    assert("--help"@[0] != "status"@[0]);
    assert("--help"@[0] != "export"@[0]);
    assert("--help"@[0] != "import"@[0]);
}

} // verus!
