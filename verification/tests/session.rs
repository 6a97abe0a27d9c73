use watchwoman::session::{
    daemon_arguments, exit_code, has_error, next_deed, next_turn, next_wait, read_timeout_secs, Approach, Deed,
    Outcome, Phase, Turn, Wait, IO_TIMEOUT_SECS,
};
use watchwoman::{CliError, Members, Value};

fn object(key: &str, v: Value) -> Value {
    let mut m = Members::new();
    m.insert(key.to_string(), v);
    Value::Object(m)
}

#[test]
fn errors_are_recognised_by_their_key() {
    assert!(has_error(&object("error", Value::Null)));
    assert!(!has_error(&object("warning", Value::Null)));
    assert!(!has_error(&Value::String("error".to_string())));
    assert_eq!(exit_code(&object("error", Value::Int(1))), 1);
    assert_eq!(exit_code(&object("pid", Value::Int(1))), 0);
}

#[test]
fn only_persistent_sessions_wait_for_ever() {
    assert_eq!(read_timeout_secs(false), Some(30));
    assert_eq!(read_timeout_secs(true), None);
    assert_eq!(IO_TIMEOUT_SECS, 30);
}

fn run(pdus: &[Value], persistent: bool) -> (String, Option<u8>) {
    let mut out = String::new();
    let mut phase = Phase::AwaitingReply;
    let mut i = 0;
    loop {
        let turn = next_turn(phase, pdus.get(i), true, persistent);
        i += 1;
        match turn {
            Turn::Print { text, phase: p } => {
                out.push_str(&text);
                phase = p;
            }
            Turn::PrintAndExit { text, code } => {
                out.push_str(&text);
                return (out, Some(code));
            }
            Turn::Exit { code } => return (out, Some(code)),
            Turn::ClosedEarly => return (out, None),
        }
    }
}

#[test]
fn a_single_answer_ends_a_session() {
    let pdus = vec![object("pid", Value::Int(7)), object("error", Value::Null)];
    assert_eq!(run(&pdus, false), ("{\"pid\":7}\n".to_string(), Some(0)));
    assert_eq!(run(&pdus[1..], false), ("{\"error\":null}\n".to_string(), Some(1)));
}

#[test]
fn a_persistent_session_prints_all_and_exits_by_its_first_answer() {
    let pdus = vec![object("error", Value::Null), object("pid", Value::Int(7)), Value::Int(3)];
    assert_eq!(
        run(&pdus, true),
        ("{\"error\":null}\n{\"pid\":7}\n3\n".to_string(), Some(1))
    );
    assert_eq!(run(&pdus[1..], true), ("{\"pid\":7}\n3\n".to_string(), Some(0)));
    let late = vec![Value::Int(1), object("error", Value::Null)];
    assert_eq!(run(&late, true), ("1\n{\"error\":null}\n".to_string(), Some(0)));
}

#[test]
fn a_daemon_that_hangs_up_is_an_error() {
    assert_eq!(run(&[], false), (String::new(), None));
    assert_eq!(run(&[], true), (String::new(), None));
    assert_eq!(CliError::ClosedEarly.message(), "daemon closed connection early");
}

fn deeds(outcomes: &[Outcome], no_spawn: bool) -> Vec<Deed> {
    let mut state = Approach::Probing;
    let mut done = vec![];
    for o in outcomes {
        let (s, d) = next_deed(state, *o, no_spawn);
        state = s;
        done.push(d);
    }
    assert_eq!(state, Approach::Over);
    done
}

#[test]
fn the_daemon_is_told_its_socket() {
    assert_eq!(daemon_arguments("/run/s o"), vec!["--sockname", "/run/s o", "--foreground-daemon"]);
}

#[test]
fn a_running_daemon_is_used() {
    assert_eq!(
        deeds(&[Outcome::SocketPresent, Outcome::Connected], false),
        vec![Deed::Dial, Deed::Use]
    );
}

#[test]
fn a_missing_daemon_is_started() {
    assert_eq!(
        deeds(&[Outcome::SocketMissing, Outcome::Started, Outcome::Connected], false),
        vec![Deed::StartDaemon, Deed::Dial, Deed::Use]
    );
    assert_eq!(
        deeds(&[Outcome::SocketMissing, Outcome::StartFailed], false),
        vec![Deed::StartDaemon, Deed::FailStart]
    );
    assert_eq!(
        deeds(&[Outcome::SocketMissing, Outcome::Started, Outcome::Refused], false),
        vec![Deed::StartDaemon, Deed::Dial, Deed::FailRedial]
    );
}

#[test]
fn an_orphan_socket_is_cleared() {
    assert_eq!(
        deeds(
            &[
                Outcome::SocketPresent,
                Outcome::Refused,
                Outcome::Removed,
                Outcome::Started,
                Outcome::Connected
            ],
            false
        ),
        vec![Deed::Dial, Deed::RemoveSocket, Deed::StartDaemon, Deed::Dial, Deed::Use]
    );
    assert_eq!(
        deeds(&[Outcome::SocketPresent, Outcome::DialFailed], false),
        vec![Deed::Dial, Deed::FailDial]
    );
}

#[test]
fn no_spawn_starts_nothing() {
    assert_eq!(deeds(&[Outcome::SocketMissing], true), vec![Deed::FailNotRunning]);
    assert_eq!(
        deeds(&[Outcome::SocketPresent, Outcome::Refused, Outcome::Removed], true),
        vec![Deed::Dial, Deed::RemoveSocket, Deed::FailNotRunning]
    );
}

#[test]
fn waiting_for_the_socket() {
    assert_eq!(next_wait(0, false), Wait::Sleep);
    assert_eq!(next_wait(4_999_999_999, true), Wait::Ready);
    assert_eq!(next_wait(5_000_000_000, true), Wait::GiveUp);
    assert_eq!(next_wait(5_000_000_000, false), Wait::GiveUp);
}

#[test]
fn failures_have_messages() {
    let socket = "/s".to_string();
    assert_eq!(
        CliError::NotRunning { socket: socket.clone() }.message(),
        "daemon not running at /s and --no-spawn was set"
    );
    assert_eq!(CliError::Unreachable { socket: socket.clone() }.message(), "connecting to /s");
    assert_eq!(
        CliError::NotAccepting { socket: socket.clone() }.message(),
        "daemon spawned but /s did not accept connections"
    );
    assert_eq!(
        CliError::NoSocket { socket, log: "/l".to_string() }.message(),
        "daemon spawned but socket /s never appeared; see /l for details"
    );
    assert_eq!(
        CliError::NotLoaded { plist: "/p".to_string() }.message(),
        "launchctl bootstrap returned non-zero; plist at /p — try running it manually."
    );
}
