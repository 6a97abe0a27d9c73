//! The command line: its options, its commands, and what a run is to do.

use vstd::prelude::*;

verus! {

/// The command line.
#[derive(Debug)]
pub struct Cli {
    /// Path to the unix socket.
    pub sockname: Option<String>,
    /// Wire encoding for socket output.
    pub output_encoding: Encoding,
    /// Wire encoding expected from the server.
    pub server_encoding: Encoding,
    /// Print JSON on one line.
    pub no_pretty: bool,
    /// Do not start the daemon when the socket is missing.
    pub no_spawn: bool,
    /// Path to a log file.
    pub logfile: Option<String>,
    /// Numeric log level.
    pub log_level: Option<u8>,
    /// Path to a pidfile.
    pub pidfile: Option<String>,
    /// Read a JSON PDU from standard input.
    pub json_command: bool,
    /// Stay connected after the first response.
    pub persistent: bool,
    /// What to do.
    pub command: Option<Command>,
}

/// An encoding of the wire protocol.
#[derive(Debug, Clone, Copy, PartialEq, Eq)]
pub enum Encoding {
    Json,
    Bser,
    Bser2,
}

/// A shell for which a completion script can be written.
#[derive(Debug, Clone, Copy, PartialEq, Eq)]
pub enum Shell {
    Bash,
    Elvish,
    Fish,
    PowerShell,
    Zsh,
}

/// A command of the command line.
#[allow(inconsistent_fields)]
#[derive(Debug)]
pub enum Command {
    /// Run the daemon in the foreground.
    ForegroundDaemon,
    /// Print a shell completion script.
    Completion { shell: Shell },
    /// Print the path to the unix socket.
    GetSockname,
    /// Print the daemon's PID.
    GetPid,
    /// Print the version, and probe capabilities.
    Version { required: Vec<String>, optional: Vec<String> },
    /// List the capabilities of the daemon.
    ListCapabilities,
    /// Watch a path and return the enclosing project root.
    WatchProject { path: String },
    /// Watch a path as it is.
    Watch { path: String },
    /// List the watched roots.
    WatchList,
    /// Stop watching a root.
    WatchDel { path: String },
    /// Stop watching every root.
    WatchDelAll,
    /// Return the clock value of a root.
    Clock { path: String },
    /// Run a query, given as JSON.
    Query { path: String, query: String },
    /// Subscribe to a root.
    Subscribe { path: String, name: String, query: String },
    /// Drop a subscription.
    Unsubscribe { path: String, name: String },
    /// Wait for pending subscriptions.
    FlushSubscriptions { path: String, timeout_ms: u64 },
    /// Enter a named state.
    StateEnter { path: String, name: String },
    /// Leave a named state.
    StateLeave { path: String, name: String },
    /// Fetch the configuration of a root.
    GetConfig { path: String },
    /// Set or read the log level of the server.
    LogLevel { level: Option<String> },
    /// Write a message to the log of the server.
    Log { level: String, message: String },
    /// Report on the daemon.
    Status { json: bool },
    /// Tear the daemon down.
    ShutdownServer,
    /// Send a PDU, given as JSON.
    Raw { pdu: String },
    /// Rescan a root from disk.
    DebugRecrawl { path: String },
    /// Sweep aged-out files.
    DebugAgeout { path: String, age: i64 },
    /// Dump the named cursors of a root.
    DebugShowCursors { path: String },
    /// Block until pending events are settled.
    DebugPollForSettle { path: String },
    /// Find files by glob patterns.
    Find { path: String, patterns: Vec<String> },
    /// List what changed since a clock value.
    Since { path: String, clock: String },
    /// Install a trigger, given as JSON.
    Trigger { path: String, spec: String },
    /// List the triggers of a root.
    TriggerList { path: String },
    /// Delete a trigger.
    TriggerDel { path: String, name: String },
    /// Dump the daemon's log ring.
    GetLog,
    /// Set or read the log level of the server.
    GlobalLogLevel { level: Option<String> },
    /// Return the content hash of a file.
    DebugContenthash { path: String },
    /// Dump the status of the daemon.
    DebugStatus,
    /// Dump the status of a root.
    DebugRootStatus { path: String },
    /// Report the watcher backend of a root.
    DebugWatcherInfo { path: String },
    /// Clear the caches of the watcher backend.
    DebugWatcherInfoClear,
    /// List the states that are asserted on a root.
    DebugGetAssertedStates { path: String },
    /// Dump the subscriptions of a root.
    DebugGetSubscriptions { path: String },
    /// Recrawl a root on both macOS backends.
    DebugKqueueAndFsEventsRecrawl { path: String },
    /// Pretend that an event was dropped.
    DebugFsEventsInjectDrop { path: String },
    /// Toggle parallel crawling.
    DebugSetParallelCrawl,
    /// Pause or resume all subscriptions.
    DebugSetSubscriptionsPaused,
    /// Return the symlink target cache.
    DebugSymlinkTargetCache,
    /// Install the LaunchAgent of the daemon.
    InstallAgent,
    /// Remove the LaunchAgent of the daemon.
    UninstallAgent,
}

/// What a run does.
#[derive(Debug, Clone, Copy, PartialEq, Eq)]
pub enum Plan {
    /// Send the PDU that standard input holds.
    StdinJson,
    /// Print the help, and exit with 1.
    Help,
    /// Be the daemon.
    Daemon,
    /// Print a completion script.
    Completion(Shell),
    /// Install the LaunchAgent.
    InstallAgent,
    /// Remove the LaunchAgent.
    UninstallAgent,
    /// Report on the daemon; `json` asks for the response as it is, `no_pretty` for JSON on one
    /// line.
    Status { json: bool, no_pretty: bool },
    /// Send the request of the command.
    Client,
}

/// What a run with the command line `cli` does. A PDU on standard input goes before a command.
pub open spec fn planned(cli: Cli) -> Plan {
    if cli.json_command {
        Plan::StdinJson
    } else {
        match cli.command {
            None => Plan::Help,
            Some(Command::ForegroundDaemon) => Plan::Daemon,
            Some(Command::Completion { shell }) => Plan::Completion(shell),
            Some(Command::InstallAgent) => Plan::InstallAgent,
            Some(Command::UninstallAgent) => Plan::UninstallAgent,
            Some(Command::Status { json }) => Plan::Status { json, no_pretty: cli.no_pretty },
            Some(_) => Plan::Client,
        }
    }
}

/// Decides what a run does.
pub fn plan(cli: &Cli) -> (r: Plan)
    ensures
        r == planned(*cli),
{
    if cli.json_command {
        return Plan::StdinJson;
    }
    match &cli.command {
        None => Plan::Help,
        Some(cmd) => match cmd {
            Command::ForegroundDaemon => Plan::Daemon,
            Command::Completion { shell } => Plan::Completion(*shell),
            Command::InstallAgent => Plan::InstallAgent,
            Command::UninstallAgent => Plan::UninstallAgent,
            Command::Status { json } => Plan::Status { json: *json, no_pretty: cli.no_pretty },
            _ => Plan::Client,
        },
    }
}

/// A PDU is read from standard input exactly when that was asked for, whatever the command and
/// the other options are.
pub proof fn stdin_goes_first(cli: Cli)
    ensures
        planned(cli) is StdinJson <==> cli.json_command,
{
}

/// Where no PDU is read from standard input, the command decides. Each plan belongs to one
/// command, and `Client` to all that are left.
pub proof fn command_decides(cli: Cli, shell: Shell, json: bool, no_pretty: bool)
    requires
        !cli.json_command,
    ensures
        planned(cli) is Help <==> cli.command is None,
        planned(cli) is Daemon <==> cli.command == Some(Command::ForegroundDaemon),
        planned(cli) is InstallAgent <==> cli.command == Some(Command::InstallAgent),
        planned(cli) is UninstallAgent <==> cli.command == Some(Command::UninstallAgent),
        planned(cli) == Plan::Completion(shell) <==> cli.command == Some(
            (Command::Completion { shell }),
        ),
        planned(cli) == (Plan::Status { json, no_pretty }) <==> no_pretty == cli.no_pretty
            && cli.command == Some((Command::Status { json })),
        planned(cli) is Client <==> cli.command is Some && !(cli.command->0 is ForegroundDaemon)
            && !(cli.command->0 is InstallAgent) && !(cli.command->0 is UninstallAgent)
            && !(cli.command->0 is Completion) && !(cli.command->0 is Status),
{
}

/// No other option has a say in what a run does: two command lines that agree on the command, on
/// reading standard input and on compact JSON have the same plan.
pub proof fn other_options_do_not_decide(a: Cli, b: Cli)
    requires
        a.json_command == b.json_command,
        a.no_pretty == b.no_pretty,
        a.command == b.command,
    ensures
        planned(a) == planned(b),
{
}

/// Compact JSON is asked for of a status report only, and changes no other plan.
pub proof fn compact_json_changes_no_other_plan(a: Cli, b: Cli)
    requires
        a.json_command == b.json_command,
        a.command == b.command,
        !(planned(a) is Status),
    ensures
        planned(a) == planned(b),
{
}

/// A run talks to the daemon as a client only for a command that is a request.
pub proof fn clients_send_requests(cli: Cli)
    requires
        planned(cli) is Client,
    ensures
        cli.command is Some,
        crate::pdu::is_request(cli.command->0),
{
}

/// The pidfile that a run writes, if any.
pub open spec fn pidfile_of(cli: Cli) -> Option<Seq<char>> {
    match (cli.pidfile, cli.command) {
        (Some(p), Some(Command::ForegroundDaemon)) => Some(p@),
        _ => None,
    }
}

/// A pidfile is written under the path that was asked for, by the daemon and by nobody else,
/// whatever the other options are.
pub proof fn only_the_daemon_has_a_pidfile(cli: Cli)
    ensures
        pidfile_of(cli) is Some ==> cli.command == Some(Command::ForegroundDaemon),
        cli.command == Some(Command::ForegroundDaemon) ==> (pidfile_of(cli) is Some
            <==> cli.pidfile is Some),
        pidfile_of(cli) matches Some(p) ==> cli.pidfile matches Some(q) && p == q@,
{
}

/// The pidfile that a run writes: the one that was asked for, where the run is the daemon.
pub fn pidfile_to_write(cli: &Cli) -> (r: Option<&str>)
    ensures
        r is Some <==> pidfile_of(*cli) is Some,
        r matches Some(p) ==> pidfile_of(*cli) == Some(p@),
        r is Some <==> cli.pidfile is Some && cli.command is Some && cli.command->0
            is ForegroundDaemon,
        r matches Some(p) ==> p@ == cli.pidfile->0@,
{
    match &cli.pidfile {
        None => None,
        Some(p) => match &cli.command {
            Some(Command::ForegroundDaemon) => Some(p.as_str()),
            _ => None,
        },
    }
}

/// The name of the log level `level`, which is 1 unless it was given.
pub open spec fn level_name(level: Option<u8>) -> Seq<char> {
    match level {
        Some(0) => "off"@,
        None | Some(1) => "warn"@,
        Some(2) => "debug"@,
        Some(_) => "trace"@,
    }
}

/// The levels from 3 on are one level, 1 is the level where none is given, and the four levels
/// have four names.
pub proof fn levels_have_names(level: Option<u8>)
    ensures
        level is None ==> level_name(level) == "warn"@,
        level matches Some(n) ==> {
            &&& n >= 3 ==> level_name(level) == "trace"@
            &&& n == 2 ==> level_name(level) == "debug"@
            &&& n == 1 ==> level_name(level) == "warn"@
            &&& n == 0 ==> level_name(level) == "off"@
        },
{
}

/// A level that is at least as high lets at least as much through: lower levels have other names,
/// and the highest name stays.
pub proof fn names_follow_levels(a: u8, b: u8)
    requires
        a <= b,
    ensures
        level_name(Some(a)) == "trace"@ ==> level_name(Some(b)) == "trace"@,
        level_name(Some(b)) == "off"@ ==> a == 0 && b == 0,
        level_name(Some(a)) == level_name(Some(b)) <==> a == b || a >= 3,
{
    reveal_strlit("off");
    reveal_strlit("warn");
    reveal_strlit("debug");
    reveal_strlit("trace");
    assert("off"@.len() == 3 && "warn"@.len() == 4 && "debug"@.len() == 5 && "trace"@.len() == 5);
    assert("debug"@[0] != "trace"@[0]);
    levels_have_names(Some(a));
    levels_have_names(Some(b));
}

/// The name of a log level: 0 is off, 1 warn, 2 debug, and all above trace.
pub fn log_level_name(level: Option<u8>) -> (r: &'static str)
    ensures
        r@ == level_name(level),
{
    let n: u8 = match level {
        Some(l) => l,
        None => 1,
    };
    if n == 0 {
        "off"
    } else if n == 1 {
        "warn"
    } else if n == 2 {
        "debug"
    } else {
        "trace"
    }
}

/// The file that the log goes to, if any.
pub open spec fn log_target(logfile: Option<Seq<char>>) -> Option<Seq<char>> {
    if logfile == Some("-"@) {
        None
    } else {
        logfile
    }
}

/// Each file that is given gets the log, under the name that was given; only a single dash is no
/// file.
pub proof fn only_a_dash_is_no_file(logfile: Option<Seq<char>>)
    ensures
        log_target(None) is None,
        logfile matches Some(f) ==> {
            &&& f.len() != 1 || f[0] != '-' ==> log_target(logfile) == Some(f)
            &&& f == seq!['-'] ==> log_target(logfile) is None
        },
{
    reveal_strlit("-");
    if let Some(f) = logfile {
        if f == seq!['-'] {
            assert(f =~= "-"@);
        }
        if f == "-"@ {
            assert(f.len() == 1 && f[0] == '-');
        }
    }
}

/// The file that the log goes to. There is none where none was given, and where `-` was: the
/// log then goes to standard error.
pub fn log_file(logfile: Option<&str>) -> (r: Option<&str>)
    ensures
        r is Some <==> log_target(
            match logfile {
                Some(p) => Some(p@),
                None => None,
            },
        ) is Some,
        r is Some <==> logfile is Some && logfile->0@ != "-"@,
        r matches Some(p) ==> p@ == logfile->0@,
{
    match logfile {
        None => None,
        Some(p) => {
            proof {
                reveal_strlit("-");
            }
            if p.unicode_len() == 1 && p.get_char(0) == '-' {
                assert(p@ =~= "-"@);
                None
            } else {
                assert(p@ != "-"@) by {
                    if p@ == "-"@ {
                        assert(p@.len() == 1 && p@[0] == '-');
                    }
                }
                Some(p)
            }
        },
    }
}

} // verus!
