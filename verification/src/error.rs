//! What can go wrong in the client.

use vstd::prelude::*;

verus! {

/// A failure of the client.
#[derive(Debug)]
pub enum CliError {
    /// Standard input held no PDU.
    EmptyStdin,
    /// A text that should be JSON is not: what was being read, and the reader's complaint.
    Json { context: String, cause: String },
    /// The daemon does not run, and must not be started.
    NotRunning { socket: String },
    /// The socket is there, but connecting to it failed.
    Unreachable { socket: String },
    /// The daemon was started, but did not accept a connection.
    NotAccepting { socket: String },
    /// The daemon was started, but its socket did not appear in time.
    NoSocket { socket: String, log: String },
    /// The daemon closed the connection before it answered.
    ClosedEarly,
    /// The socket has no directory.
    NoStateDir,
    /// The LaunchAgent was written, but could not be loaded.
    NotLoaded { plist: String },
}

/// What a failure is reported as.
pub open spec fn message_text(e: CliError) -> Seq<char> {
    match e {
        CliError::EmptyStdin => "`-j` expected a JSON PDU on stdin"@,
        CliError::Json { context, .. } => context@,
        CliError::NotRunning { socket } => "daemon not running at "@ + socket@
            + " and --no-spawn was set"@,
        CliError::Unreachable { socket } => "connecting to "@ + socket@,
        CliError::NotAccepting { socket } => "daemon spawned but "@ + socket@
            + " did not accept connections"@,
        CliError::NoSocket { socket, log } => "daemon spawned but socket "@ + socket@
            + " never appeared; see "@ + log@ + " for details"@,
        CliError::ClosedEarly => "daemon closed connection early"@,
        CliError::NoStateDir => "resolving state dir"@,
        CliError::NotLoaded { plist } => "launchctl bootstrap returned non-zero; plist at "@
            + plist@ + " — try running it manually."@,
    }
}

/// A failure that is about a path names that path as it is, whatever it is, and all that is said
/// around it is the same for all paths.
pub proof fn messages_name_their_paths(socket: String, log: String, plist: String)
    ensures
        ({
            let m = message_text((CliError::NotRunning { socket }));
            &&& "daemon not running at "@.is_prefix_of(m)
            &&& m.skip("daemon not running at "@.len() as int) == socket@
                + " and --no-spawn was set"@
        }),
        ({
            let m = message_text((CliError::Unreachable { socket }));
            &&& "connecting to "@.is_prefix_of(m)
            &&& m.skip("connecting to "@.len() as int) == socket@
        }),
        ({
            let m = message_text((CliError::NotAccepting { socket }));
            &&& "daemon spawned but "@.is_prefix_of(m)
            &&& m.skip("daemon spawned but "@.len() as int) == socket@
                + " did not accept connections"@
        }),
        ({
            let m = message_text((CliError::NoSocket { socket, log }));
            &&& "daemon spawned but socket "@.is_prefix_of(m)
            &&& m.skip("daemon spawned but socket "@.len() as int) == socket@
                + " never appeared; see "@ + log@ + " for details"@
        }),
        ({
            let m = message_text((CliError::NotLoaded { plist }));
            &&& "launchctl bootstrap returned non-zero; plist at "@.is_prefix_of(m)
            &&& m.skip("launchctl bootstrap returned non-zero; plist at "@.len() as int) == plist@
                + " — try running it manually."@
        }),
{
    let a = message_text(CliError::NotRunning { socket });
    assert(a.take("daemon not running at "@.len() as int) =~= "daemon not running at "@);
    assert(a.skip("daemon not running at "@.len() as int) =~= socket@
        + " and --no-spawn was set"@);
    let b = message_text(CliError::Unreachable { socket });
    assert(b.take("connecting to "@.len() as int) =~= "connecting to "@);
    assert(b.skip("connecting to "@.len() as int) =~= socket@);
    let c = message_text(CliError::NotAccepting { socket });
    assert(c.take("daemon spawned but "@.len() as int) =~= "daemon spawned but "@);
    assert(c.skip("daemon spawned but "@.len() as int) =~= socket@
        + " did not accept connections"@);
    let d = message_text(CliError::NoSocket { socket, log });
    assert(d.take("daemon spawned but socket "@.len() as int) =~= "daemon spawned but socket "@);
    assert(d.skip("daemon spawned but socket "@.len() as int) =~= socket@
        + " never appeared; see "@ + log@ + " for details"@);
    let e = message_text(CliError::NotLoaded { plist });
    assert(e.take("launchctl bootstrap returned non-zero; plist at "@.len() as int)
        =~= "launchctl bootstrap returned non-zero; plist at "@);
    assert(e.skip("launchctl bootstrap returned non-zero; plist at "@.len() as int) =~= plist@
        + " — try running it manually."@);
}

/// A failure to read JSON is reported as what was being read; the complaint of the reader does
/// not change that.
pub proof fn context_is_the_message(context: String, cause: String, other: String)
    ensures
        message_text((CliError::Json { context, cause })) == context@,
        message_text((CliError::Json { context, cause })) == message_text(
            (CliError::Json { context, cause: other }),
        ),
{
}

impl CliError {
    /// Writes what the failure is reported as.
    pub fn message(&self) -> (r: String)
        ensures
            r@ == message_text(*self),
    {
        match self {
            CliError::EmptyStdin => "`-j` expected a JSON PDU on stdin".to_owned(),
            CliError::Json { context, .. } => context.clone(),
            CliError::NotRunning { socket } => {
                let mut r = "daemon not running at ".to_owned();
                r.append(socket.as_str());
                r.append(" and --no-spawn was set");
                r
            },
            CliError::Unreachable { socket } => {
                let mut r = "connecting to ".to_owned();
                r.append(socket.as_str());
                r
            },
            CliError::NotAccepting { socket } => {
                let mut r = "daemon spawned but ".to_owned();
                r.append(socket.as_str());
                r.append(" did not accept connections");
                r
            },
            CliError::NoSocket { socket, log } => {
                let mut r = "daemon spawned but socket ".to_owned();
                r.append(socket.as_str());
                r.append(" never appeared; see ");
                r.append(log.as_str());
                r.append(" for details");
                r
            },
            CliError::ClosedEarly => "daemon closed connection early".to_owned(),
            CliError::NoStateDir => "resolving state dir".to_owned(),
            CliError::NotLoaded { plist } => {
                let mut r = "launchctl bootstrap returned non-zero; plist at ".to_owned();
                r.append(plist.as_str());
                r.append(" — try running it manually.");
                r
            },
        }
    }
}

} // verus!
