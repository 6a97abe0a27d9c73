//! The LaunchAgent that starts the daemon at login on macOS.

use vstd::prelude::*;

use crate::paths;
use crate::text;

verus! {

/// The label of the agent.
pub const AGENT_LABEL: &'static str = "cc.blit.watchwoman";

/// The path of the agent's property list below the home directory `home`.
pub open spec fn plist_path(home: Seq<char>) -> Seq<char> {
    paths::joined(paths::joined(home, "Library/LaunchAgents"@), AGENT_LABEL@ + ".plist"@)
}

/// The path of the agent's property list. Where there is no home directory, `/tmp` stands for
/// it.
pub fn agent_plist_path(home: Option<&str>) -> (r: String)
    ensures
        r@ == plist_path(match home {
            Some(h) => h@,
            None => "/tmp"@,
        }),
{
    let home = match home {
        Some(h) => h,
        None => "/tmp",
    };
    let mut name = AGENT_LABEL.to_owned();
    name.append(".plist");
    proof {
        reveal_strlit("Library/LaunchAgents");
        reveal_strlit("cc.blit.watchwoman");
    }
    paths::join(paths::join(home, "Library/LaunchAgents").as_str(), name.as_str())
}

/// The property list lies at the same place below every home directory.
pub proof fn plist_lies_below_the_home(home: Seq<char>)
    ensures
        plist_path(home) == paths::joined(
            home,
            "Library/LaunchAgents"@ + "/"@ + AGENT_LABEL@ + ".plist"@,
        ),
        home.is_prefix_of(plist_path(home)),
{
    reveal_strlit("Library/LaunchAgents");
    let name = AGENT_LABEL@ + ".plist"@;
    let below = "Library/LaunchAgents"@ + "/"@ + AGENT_LABEL@ + ".plist"@;
    paths::joining_is_associative(home, "Library/LaunchAgents"@, name);
    assert("Library/LaunchAgents"@.last() == 's');
    assert(paths::joined("Library/LaunchAgents"@, name) =~= below);
    paths::joined_holds_both(home, below);
}

/// The socket of the agent's daemon, in the directory of the daemon's state.
pub fn agent_socket(state_dir: &str) -> (r: String)
    ensures
        r@ == paths::joined(state_dir@, "sock"@),
{
    proof {
        reveal_strlit("sock");
    }
    paths::join(state_dir, "sock")
}

/// The log of the agent's daemon, in the directory of the daemon's state.
pub fn agent_log(state_dir: &str) -> (r: String)
    ensures
        r@ == paths::joined(state_dir@, "watchwoman.log"@),
{
    proof {
        reveal_strlit("watchwoman.log");
    }
    paths::join(state_dir, "watchwoman.log")
}

/// The property list up to the label.
pub const PLIST_LABEL: &'static str = "<?xml version=\"1.0\" encoding=\"UTF-8\"?>\n<!DOCTYPE plist PUBLIC \"-//Apple//DTD PLIST 1.0//EN\" \"http://www.apple.com/DTDs/PropertyList-1.0.dtd\">\n<plist version=\"1.0\">\n<dict>\n    <key>Label</key><string>";

/// The property list from the label to the executable.
pub const PLIST_PROGRAM: &'static str = "</string>\n    <key>ProgramArguments</key>\n    <array>\n        <string>";

/// The property list from the executable to the socket.
pub const PLIST_SOCKET: &'static str = "</string>\n        <string>--sockname</string>\n        <string>";

/// The property list from the socket to the log.
pub const PLIST_ERRORS: &'static str = "</string>\n        <string>--foreground-daemon</string>\n    </array>\n    <key>KeepAlive</key>\n    <dict><key>Crashed</key><true/></dict>\n    <key>RunAtLoad</key><true/>\n    <key>StandardErrorPath</key><string>";

/// The property list between its two mentions of the log.
pub const PLIST_OUTPUT: &'static str = "</string>\n    <key>StandardOutPath</key><string>";

/// The property list from the log on.
pub const PLIST_END: &'static str = "</string>\n    <key>ProcessType</key><string>Interactive</string>\n</dict>\n</plist>\n";

/// The property list of an agent that runs `exe` as the daemon on `sock` and logs to `log`.
pub open spec fn plist_text(exe: Seq<char>, sock: Seq<char>, log: Seq<char>) -> Seq<char> {
    PLIST_LABEL@ + AGENT_LABEL@ + PLIST_PROGRAM@ + exe + PLIST_SOCKET@ + sock + PLIST_ERRORS@
        + log + PLIST_OUTPUT@ + log + PLIST_END@
}

/// The executable, the socket and the log go into the property list as they are, and the rest of
/// it is the same for all of them. The log stands there twice, for errors and for output.
pub proof fn plist_names_program_socket_and_log(
    exe: Seq<char>,
    sock: Seq<char>,
    log: Seq<char>,
)
    ensures
        ({
            let all = plist_text(exe, sock, log);
            let program = PLIST_LABEL@ + AGENT_LABEL@ + PLIST_PROGRAM@ + exe;
            let socket = PLIST_SOCKET@ + sock;
            let logs = PLIST_ERRORS@ + log + PLIST_OUTPUT@ + log + PLIST_END@;
            &&& program.is_prefix_of(all)
            &&& all.subrange(program.len() as int, (program + socket).len() as int) == socket
            &&& all.skip((program + socket).len() as int) == logs
        }),
{
    let all = plist_text(exe, sock, log);
    let program = PLIST_LABEL@ + AGENT_LABEL@ + PLIST_PROGRAM@ + exe;
    let socket = PLIST_SOCKET@ + sock;
    let logs = PLIST_ERRORS@ + log + PLIST_OUTPUT@ + log + PLIST_END@;
    assert(all =~= program + socket + logs);
    assert(all.take(program.len() as int) =~= program);
    assert(all.subrange(program.len() as int, (program + socket).len() as int) =~= socket);
    assert(all.skip((program + socket).len() as int) =~= logs);
}

/// Writes the agent's property list.
pub fn plist_body(exe: &str, sock: &str, log: &str) -> (r: String)
    ensures
        r@ == plist_text(exe@, sock@, log@),
{
    let mut r = PLIST_LABEL.to_owned();
    r.append(AGENT_LABEL);
    r.append(PLIST_PROGRAM);
    r.append(exe);
    r.append(PLIST_SOCKET);
    r.append(sock);
    r.append(PLIST_ERRORS);
    r.append(log);
    r.append(PLIST_OUTPUT);
    r.append(log);
    r.append(PLIST_END);
    r
}

/// The launchd domain of the user `uid`.
pub open spec fn domain_text(uid: u32) -> Seq<char> {
    "gui/"@ + text::decimal_text(uid as nat)
}

/// The domain of a user is told by the user's number: different users have different domains.
pub proof fn domain_tells_the_user(a: u32, b: u32)
    ensures
        "gui/"@.is_prefix_of(domain_text(a)),
        crate::human::number_of(domain_text(a).skip("gui/"@.len() as int)) == a,
        domain_text(a) == domain_text(b) ==> a == b,
{
    crate::human::decimal_denotes_its_number(a as nat);
    crate::human::decimal_denotes_its_number(b as nat);
    assert(domain_text(a).take("gui/"@.len() as int) =~= "gui/"@);
    assert(domain_text(a).skip("gui/"@.len() as int) =~= text::decimal_text(a as nat));
    assert(domain_text(b).skip("gui/"@.len() as int) =~= text::decimal_text(b as nat));
}

/// Writes the launchd domain of a user.
pub fn launch_domain(uid: u32) -> (r: String)
    ensures
        r@ == domain_text(uid),
{
    let mut r = "gui/".to_owned();
    r.append(text::decimal(uid as u64).as_str());
    r
}

/// Writes the launchd name of the agent of a user.
pub fn launch_service(uid: u32) -> (r: String)
    ensures
        r@ == domain_text(uid) + "/"@ + AGENT_LABEL@,
{
    let mut r = launch_domain(uid);
    r.append("/");
    r.append(AGENT_LABEL);
    r
}

/// Writes what is printed once the agent is installed.
pub fn installed_text(plist: &str, sock: &str, log: &str) -> (r: String)
    ensures
        r@ == "Installed LaunchAgent "@ + AGENT_LABEL@ + ".\n  plist:  "@ + plist@
            + "\n  socket: "@ + sock@ + "\n  log:    "@ + log@,
{
    let mut r = "Installed LaunchAgent ".to_owned();
    r.append(AGENT_LABEL);
    r.append(".\n  plist:  ");
    r.append(plist);
    r.append("\n  socket: ");
    r.append(sock);
    r.append("\n  log:    ");
    r.append(log);
    r
}

/// Writes what is printed once the agent is removed; `existed` says whether its property list
/// was there.
pub fn uninstalled_text(plist: &str, existed: bool) -> (r: String)
    ensures
        r@ == (if existed {
            "Removed LaunchAgent "@ + AGENT_LABEL@ + " ("@ + plist@ + ")"@
        } else {
            "No LaunchAgent installed for "@ + AGENT_LABEL@ + "."@
        }),
{
    if existed {
        let mut r = "Removed LaunchAgent ".to_owned();
        r.append(AGENT_LABEL);
        r.append(" (");
        r.append(plist);
        r.append(")");
        r
    } else {
        let mut r = "No LaunchAgent installed for ".to_owned();
        r.append(AGENT_LABEL);
        r.append(".");
        r
    }
}

/// A place where a binary can be expected that survives an upgrade.
#[derive(Debug, Clone, Copy)]
pub struct Place {
    /// `path` is below the home directory.
    pub under_home: bool,
    pub path: &'static str,
}

impl View for Place {
    type V = (bool, Seq<char>);

    open spec fn view(&self) -> (bool, Seq<char>) {
        (self.under_home, self.path@)
    }
}

/// The places where a stable binary can be expected, the best first: the shims of mise, the
/// prefixes of brew, the directory of cargo. Those below the home directory take one.
pub open spec fn stable_places(has_home: bool) -> Seq<(bool, Seq<char>)> {
    let brew = seq![
        (false, "/opt/homebrew/bin/watchman"@),
        (false, "/opt/homebrew/bin/watchwoman"@),
        (false, "/usr/local/bin/watchman"@),
        (false, "/usr/local/bin/watchwoman"@),
    ];
    if has_home {
        seq![
            (true, ".local/share/mise/shims/watchman"@),
            (true, ".local/share/mise/shims/watchwoman"@),
        ] + brew + seq![(true, ".cargo/bin/watchman"@), (true, ".cargo/bin/watchwoman"@)]
    } else {
        brew
    }
}

fn push_place(places: &mut Vec<Place>, under_home: bool, path: &'static str)
    ensures
        final(places)@.len() == old(places)@.len() + 1,
        final(places)@.map_values(|p: Place| p@) == old(places)@.map_values(|p: Place| p@).push(
            (under_home, path@),
        ),
{
    places.push(Place { under_home, path });
    assert(places@.map_values(|p: Place| p@) =~= old(places)@.map_values(|p: Place| p@).push(
        (under_home, path@),
    ));
}

/// Lists the places where a stable binary can be expected, the best first.
pub fn candidates(has_home: bool) -> (r: Vec<Place>)
    ensures
        r@.map_values(|p: Place| p@) == stable_places(has_home),
{
    let mut r: Vec<Place> = Vec::new();
    if has_home {
        push_place(&mut r, true, ".local/share/mise/shims/watchman");
        push_place(&mut r, true, ".local/share/mise/shims/watchwoman");
    }
    push_place(&mut r, false, "/opt/homebrew/bin/watchman");
    push_place(&mut r, false, "/opt/homebrew/bin/watchwoman");
    push_place(&mut r, false, "/usr/local/bin/watchman");
    push_place(&mut r, false, "/usr/local/bin/watchwoman");
    if has_home {
        push_place(&mut r, true, ".cargo/bin/watchman");
        push_place(&mut r, true, ".cargo/bin/watchwoman");
    }
    assert(r@.map_values(|p: Place| p@) =~= stable_places(has_home));
    r
}

/// Picks the first candidate that exists. Where none does, the running binary has to do.
pub fn first_existing(exists: &Vec<bool>) -> (r: Option<usize>)
    ensures
        match r {
            Some(i) => i < exists@.len() && exists@[i as int] && forall|k: int|
                0 <= k < i ==> !exists@[k],
            None => forall|k: int| 0 <= k < exists@.len() ==> !exists@[k],
        },
{
    let mut i: usize = 0;
    while i < exists.len()
        invariant
            i <= exists@.len(),
            forall|k: int| 0 <= k < i ==> !exists@[k],
        decreases exists@.len() - i,
    {
        if exists[i] {
            return Some(i);
        }
        i = i + 1;
    }
    None
}

/// Tells whether the running binary comes out of a build directory.
pub fn is_dev_build(running: &str) -> (r: bool)
    ensures
        r == (text::occurs_in(running@, "/target/release/"@) || text::occurs_in(
            running@,
            "/target/debug/"@,
        )),
{
    text::contains(running, "/target/release/") || text::contains(running, "/target/debug/")
}

/// Writes the warning about an agent that runs a binary out of a build directory.
pub fn dev_build_warning(running: &str) -> (r: String)
    ensures
        r@
            == "warning: no stable watchwoman found on $PATH; using the running\n  dev binary "@
            + running@
            + ".  Re-run `watchwoman install-agent` after a real\n  install (brew / mise / cargo) to stabilise the plist."@,
{
    let mut r = "warning: no stable watchwoman found on $PATH; using the running\n  dev binary ".to_owned();
    r.append(running);
    r.append(
        ".  Re-run `watchwoman install-agent` after a real\n  install (brew / mise / cargo) to stabilise the plist.",
    );
    r
}

} // verus!
