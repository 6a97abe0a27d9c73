//! The conversation with the daemon: reaching it, waiting for it, and listening to it.

use vstd::prelude::*;

use crate::json;
use crate::value;
use crate::value::{Tree, Value};

verus! {

/// How long a write may take, and a read where one answer is expected.
pub const IO_TIMEOUT_SECS: u64 = 30;

/// How long a daemon that was started may take to open its socket.
pub const START_TIMEOUT_NANOS: u128 = 5_000_000_000;

/// How long to sleep between two looks at the socket.
pub const POLL_MILLIS: u64 = 25;

/// The words that the daemon is started with on the socket `socket`.
pub open spec fn daemon_words(socket: Seq<char>) -> Seq<Seq<char>> {
    seq!["--sockname"@, socket, "--foreground-daemon"@]
}

/// The daemon is told the path of its socket as it is, whatever that is. Nothing else that it is
/// told depends on the socket.
pub proof fn daemon_is_told_its_socket(a: Seq<char>, b: Seq<char>)
    ensures
        daemon_words(a).len() == daemon_words(b).len() == 3,
        daemon_words(a)[1] == a,
        daemon_words(a).update(1, b) == daemon_words(b),
        daemon_words(a)[0] == "--sockname"@,
        daemon_words(a)[2] == "--foreground-daemon"@,
{
    assert(daemon_words(a).update(1, b) =~= daemon_words(b));
}

/// The arguments that the daemon is started with.
pub fn daemon_arguments(socket: &str) -> (r: Vec<String>)
    ensures
        value::texts_of(r@) == daemon_words(socket@),
        value::texts_of(r@) == seq!["--sockname"@, socket@, "--foreground-daemon"@],
{
    let mut r: Vec<String> = Vec::new();
    r.push("--sockname".to_owned());
    r.push(socket.to_owned());
    r.push("--foreground-daemon".to_owned());
    assert(value::texts_of(r@) =~= seq!["--sockname"@, socket@, "--foreground-daemon"@]);
    r
}

/// The response `t` tells of an error.
pub open spec fn tells_of_error(t: Tree) -> bool {
    t is Object && value::has_key(t->Object_0, "error"@)
}

/// A response tells of an error exactly when it is an object in which a lookup of `error` finds
/// something, whatever it finds and whatever other members there are. The exit code is then 1,
/// and 0 otherwise.
pub proof fn error_is_told_by_its_key(t: Tree)
    ensures
        tells_of_error(t) <==> t is Object && value::lookup(t->Object_0, "error"@) is Some,
        t is Object && value::lookup(t->Object_0, "error"@) is Some ==> code_of(tells_of_error(t))
            == 1,
        !(t is Object) || value::lookup(t->Object_0, "error"@) is None ==> code_of(
            tells_of_error(t),
        ) == 0,
{
}

/// Whatever is stored under `error` makes a response tell of an error. What is stored under
/// another key does not change whether it does.
pub proof fn storing_an_error_tells_of_it(
    e: Seq<(Seq<char>, Tree)>,
    key: Seq<char>,
    val: Tree,
)
    requires
        value::keys_distinct(e),
    ensures
        key == "error"@ ==> tells_of_error(Tree::Object(value::stored(e, key, val))),
        key != "error"@ ==> tells_of_error(Tree::Object(value::stored(e, key, val)))
            == tells_of_error(Tree::Object(e)),
{
    value::stored_then_found(e, key, val, "error"@);
}

/// Tells whether a response tells of an error.
pub fn has_error(response: &Value) -> (r: bool)
    ensures
        r == tells_of_error(response@),
{
    match response.as_object() {
        Some(m) => m.contains_key("error"),
        None => false,
    }
}

/// The exit code of a run.
pub open spec fn code_of(failed: bool) -> u8 {
    if failed {
        1
    } else {
        0
    }
}

/// The exit code after a response: 1 where it tells of an error, 0 otherwise.
pub fn exit_code(response: &Value) -> (r: u8)
    ensures
        r == code_of(tells_of_error(response@)),
{
    if has_error(response) {
        1
    } else {
        0
    }
}

/// How long a session waits for a PDU, in seconds.
pub open spec fn patience(persistent: bool) -> Option<u64> {
    if persistent {
        None
    } else {
        Some(IO_TIMEOUT_SECS)
    }
}

/// A session has a time limit exactly when it is not persistent, and then the same as for
/// writing.
pub proof fn only_persistent_sessions_wait_for_ever(persistent: bool)
    ensures
        patience(persistent) is None <==> persistent,
        patience(persistent) matches Some(secs) ==> secs == 30 && secs == IO_TIMEOUT_SECS,
{
}

/// The seconds after which a read gives up. A persistent session waits for as long as it takes.
pub fn read_timeout_secs(persistent: bool) -> (r: Option<u64>)
    ensures
        r == patience(persistent),
        r == (if persistent {
            None::<u64>
        } else {
            Some(IO_TIMEOUT_SECS)
        }),
{
    if persistent {
        None
    } else {
        Some(IO_TIMEOUT_SECS)
    }
}

/// How far a session has come.
#[derive(Debug, Clone, Copy, PartialEq, Eq)]
pub enum Phase {
    /// The request was sent.
    AwaitingReply,
    /// The answer was printed; `failed` says whether it told of an error.
    Draining { failed: bool },
}

/// What a session does next.
#[derive(Debug)]
pub enum Turn {
    /// Print the text, and read the next PDU in the given phase.
    Print { text: String, phase: Phase },
    /// Print the text, and exit with the code.
    PrintAndExit { text: String, code: u8 },
    /// Exit with the code.
    Exit { code: u8 },
    /// The daemon hung up before it answered.
    ClosedEarly,
}

/// What a [`Turn`] denotes.
pub enum TurnView {
    Print(Seq<char>, Phase),
    PrintAndExit(Seq<char>, u8),
    Exit(u8),
    ClosedEarly,
}

impl View for Turn {
    type V = TurnView;

    open spec fn view(&self) -> TurnView {
        match *self {
            Turn::Print { text, phase } => TurnView::Print(text@, phase),
            Turn::PrintAndExit { text, code } => TurnView::PrintAndExit(text@, code),
            Turn::Exit { code } => TurnView::Exit(code),
            Turn::ClosedEarly => TurnView::ClosedEarly,
        }
    }
}

/// What a session does on a PDU, or on the end of the connection.
pub open spec fn turn_on(
    phase: Phase,
    pdu: Option<Tree>,
    no_pretty: bool,
    persistent: bool,
) -> TurnView {
    match (phase, pdu) {
        (Phase::AwaitingReply, None) => TurnView::ClosedEarly,
        (Phase::AwaitingReply, Some(t)) => if persistent {
            TurnView::Print(
                json::printed(t, no_pretty),
                Phase::Draining { failed: tells_of_error(t) },
            )
        } else {
            TurnView::PrintAndExit(json::printed(t, no_pretty), code_of(tells_of_error(t)))
        },
        (Phase::Draining { failed }, None) => TurnView::Exit(code_of(failed)),
        (Phase::Draining { failed }, Some(t)) => TurnView::Print(
            json::printed(t, no_pretty),
            phase,
        ),
    }
}

/// Decides what a session does on a PDU, or on the end of the connection.
pub fn next_turn(phase: Phase, pdu: Option<&Value>, no_pretty: bool, persistent: bool) -> (r: Turn)
    ensures
        r@ == turn_on(
            phase,
            match pdu {
                Some(v) => Some(v@),
                None => None,
            },
            no_pretty,
            persistent,
        ),
{
    match pdu {
        None => match phase {
            Phase::AwaitingReply => Turn::ClosedEarly,
            Phase::Draining { failed } => Turn::Exit {
                code: if failed {
                    1
                } else {
                    0
                },
            },
        },
        Some(v) => {
            let text = json::response_text(v, no_pretty);
            match phase {
                Phase::AwaitingReply => if persistent {
                    Turn::Print { text, phase: Phase::Draining { failed: has_error(v) } }
                } else {
                    Turn::PrintAndExit { text, code: exit_code(v) }
                },
                Phase::Draining { .. } => Turn::Print { text, phase },
            }
        },
    }
}

/// Whatever the phase and the options, each PDU is printed, as `printed` writes it, and the end of
/// the connection prints nothing. A session that is not persistent ends with its answer; any
/// other ends only with the connection.
pub proof fn each_pdu_is_printed(phase: Phase, t: Tree, no_pretty: bool, persistent: bool)
    ensures
        match turn_on(phase, Some(t), no_pretty, persistent) {
            TurnView::Print(text, _) => text == json::printed(t, no_pretty),
            TurnView::PrintAndExit(text, _) => text == json::printed(t, no_pretty),
            _ => false,
        },
        turn_on(phase, Some(t), no_pretty, persistent) is PrintAndExit <==> phase is AwaitingReply
            && !persistent,
        turn_on(phase, None, no_pretty, persistent) is ClosedEarly <==> phase is AwaitingReply,
        turn_on(phase, None, no_pretty, persistent) is Exit <==> phase is Draining,
{
}

/// The exit code is settled by the answer: it is 1 exactly when the answer is an object with a
/// member `error`, whether the session ends with it or goes on, and no later PDU changes it.
pub proof fn answer_settles_the_code(answer: Tree, later: Tree, no_pretty: bool, persistent: bool)
    ensures
        ({
            let failed = answer is Object && value::lookup(answer->Object_0, "error"@) is Some;
            let first = turn_on(Phase::AwaitingReply, Some(answer), no_pretty, persistent);
            &&& first matches TurnView::PrintAndExit(_, code) ==> code == (if failed {
                1u8
            } else {
                0u8
            })
            &&& first matches TurnView::Print(_, phase) ==> {
                &&& turn_on(phase, None, no_pretty, persistent) == TurnView::Exit(
                    if failed {
                        1u8
                    } else {
                        0u8
                    },
                )
                &&& turn_on(phase, Some(later), no_pretty, persistent) matches TurnView::Print(
                    _,
                    next,
                ) && next == phase
            }
        }),
{
}

/// Once the answer is there, every further PDU leaves the session as it is, and the end of the
/// connection exits with 1 where the answer had told of an error and with 0 where not.
pub proof fn draining_keeps_its_phase(failed: bool, t: Tree, no_pretty: bool, persistent: bool)
    ensures
        turn_on(Phase::Draining { failed }, Some(t), no_pretty, persistent) matches TurnView::Print(
            _,
            phase,
        ) && phase == (Phase::Draining { failed }),
        turn_on(Phase::Draining { failed }, None, no_pretty, persistent) == TurnView::Exit(
            if failed {
                1u8
            } else {
                0u8
            },
        ),
{
}

/// How JSON is written changes nothing but the text: the turns are the same.
pub proof fn writing_changes_no_turn(phase: Phase, pdu: Option<Tree>, persistent: bool)
    ensures
        ({
            let a = turn_on(phase, pdu, true, persistent);
            let b = turn_on(phase, pdu, false, persistent);
            &&& a matches TurnView::Print(_, p) ==> b matches TurnView::Print(_, q) && p == q
            &&& a matches TurnView::PrintAndExit(_, c) ==> b matches TurnView::PrintAndExit(_, d)
                && c == d
            &&& !(a is Print) && !(a is PrintAndExit) ==> a == b
        }),
{
}

/// What a session prints, and the code it exits with, when it reads `pdus` in the phase
/// `phase` and the connection then ends. There is no code where the daemon hung up too early.
pub open spec fn transcript(
    phase: Phase,
    pdus: Seq<Tree>,
    no_pretty: bool,
    persistent: bool,
) -> (Seq<char>, Option<u8>)
    decreases pdus.len(),
{
    if pdus.len() == 0 {
        match turn_on(phase, None, no_pretty, persistent) {
            TurnView::Exit(code) => (seq![], Some(code)),
            _ => (seq![], None),
        }
    } else {
        match turn_on(phase, Some(pdus[0]), no_pretty, persistent) {
            TurnView::Print(text, p) => {
                let rest = transcript(p, pdus.drop_first(), no_pretty, persistent);
                (text + rest.0, rest.1)
            },
            TurnView::PrintAndExit(text, code) => (text, Some(code)),
            TurnView::Exit(code) => (seq![], Some(code)),
            TurnView::ClosedEarly => (seq![], None),
        }
    }
}

/// All of `pdus`, printed one after the other.
pub open spec fn all_printed(pdus: Seq<Tree>, no_pretty: bool) -> Seq<char>
    decreases pdus.len(),
{
    if pdus.len() == 0 {
        seq![]
    } else {
        json::printed(pdus[0], no_pretty) + all_printed(pdus.drop_first(), no_pretty)
    }
}

/// The texts of two runs of PDUs follow each other, and a single PDU has its own text: nothing is
/// printed between PDUs, before them or after them.
pub proof fn pdus_are_printed_one_by_one(a: Seq<Tree>, b: Seq<Tree>, t: Tree, no_pretty: bool)
    ensures
        all_printed(a + b, no_pretty) == all_printed(a, no_pretty) + all_printed(b, no_pretty),
        all_printed(seq![t], no_pretty) == json::printed(t, no_pretty),
        all_printed(seq![], no_pretty) == Seq::<char>::empty(),
    decreases a.len(),
{
    reveal_with_fuel(all_printed, 2);
    assert(seq![t].drop_first() =~= seq![]);
    assert(json::printed(t, no_pretty) + Seq::<char>::empty() =~= json::printed(t, no_pretty));
    if a.len() == 0 {
        assert(a + b =~= b);
        assert(all_printed(a, no_pretty) + all_printed(b, no_pretty) =~= all_printed(
            b,
            no_pretty,
        ));
    } else {
        assert((a + b).drop_first() =~= a.drop_first() + b);
        pdus_are_printed_one_by_one(a.drop_first(), b, t, no_pretty);
        assert(all_printed(a + b, no_pretty) =~= all_printed(a, no_pretty) + all_printed(
            b,
            no_pretty,
        ));
    }
}

proof fn draining_prints_all(failed: bool, pdus: Seq<Tree>, no_pretty: bool)
    ensures
        transcript(Phase::Draining { failed }, pdus, no_pretty, true) == (
            all_printed(pdus, no_pretty),
            Some(code_of(failed)),
        ),
    decreases pdus.len(),
{
    if pdus.len() > 0 {
        draining_prints_all(failed, pdus.drop_first(), no_pretty);
    }
}

/// A session prints its answer, and a persistent one also all that follows. Its exit code tells
/// whether the answer told of an error, whatever follows. Without an answer there is no code.
pub proof fn session_outcome(pdus: Seq<Tree>, no_pretty: bool, persistent: bool)
    ensures
        pdus.len() == 0 ==> transcript(Phase::AwaitingReply, pdus, no_pretty, persistent) == (
            Seq::<char>::empty(),
            None::<u8>,
        ),
        pdus.len() > 0 ==> transcript(Phase::AwaitingReply, pdus, no_pretty, persistent) == (
            if persistent {
                all_printed(pdus, no_pretty)
            } else {
                json::printed(pdus[0], no_pretty)
            },
            Some(code_of(tells_of_error(pdus[0]))),
        ),
{
    if pdus.len() > 0 && persistent {
        draining_prints_all(tells_of_error(pdus[0]), pdus.drop_first(), no_pretty);
    }
}

/// How far the client is on its way to the daemon.
#[derive(Debug, Clone, Copy, PartialEq, Eq)]
pub enum Approach {
    /// Looking for the socket.
    Probing,
    /// Connecting to the socket that was there.
    Dialing,
    /// Removing the socket that nobody listens on.
    Clearing,
    /// Starting the daemon.
    Starting,
    /// Connecting to the daemon that was started.
    Redialing,
    /// Arrived, or given up.
    Over,
}

/// What became of the last deed.
#[derive(Debug, Clone, Copy, PartialEq, Eq)]
pub enum Outcome {
    SocketMissing,
    SocketPresent,
    Connected,
    /// The connection was refused: nobody listens on the socket.
    Refused,
    /// Connecting failed for another reason.
    DialFailed,
    /// The socket was removed, as far as that was possible.
    Removed,
    Started,
    StartFailed,
}

/// What to do next on the way to the daemon.
#[derive(Debug, Clone, Copy, PartialEq, Eq)]
pub enum Deed {
    /// Connect to the socket.
    Dial,
    /// Remove the socket.
    RemoveSocket,
    /// Start the daemon, and wait for its socket.
    StartDaemon,
    /// Use the connection.
    Use,
    /// Fail: connecting to the socket that was there did not work.
    FailDial,
    /// Fail: the daemon does not run, and must not be started.
    FailNotRunning,
    /// Fail: the daemon could not be started.
    FailStart,
    /// Fail: the daemon that was started does not accept the connection.
    FailRedial,
}

/// `outcome` can come of the deed that led to `state`.
pub open spec fn can_happen(state: Approach, outcome: Outcome) -> bool {
    match state {
        Approach::Probing => outcome is SocketMissing || outcome is SocketPresent,
        Approach::Dialing => outcome is Connected || outcome is Refused || outcome is DialFailed,
        Approach::Clearing => outcome is Removed,
        Approach::Starting => outcome is Started || outcome is StartFailed,
        Approach::Redialing => outcome is Connected || outcome is Refused || outcome is DialFailed,
        Approach::Over => false,
    }
}

/// Where a missing daemon leads.
pub open spec fn when_missing(no_spawn: bool) -> (Approach, Deed) {
    if no_spawn {
        (Approach::Over, Deed::FailNotRunning)
    } else {
        (Approach::Starting, Deed::StartDaemon)
    }
}

/// The next state and the next deed.
pub open spec fn approach_on(state: Approach, outcome: Outcome, no_spawn: bool) -> (
    Approach,
    Deed,
) {
    match (state, outcome) {
        (Approach::Probing, Outcome::SocketPresent) => (Approach::Dialing, Deed::Dial),
        (Approach::Probing, _) => when_missing(no_spawn),
        (Approach::Dialing, Outcome::Connected) => (Approach::Over, Deed::Use),
        (Approach::Dialing, Outcome::Refused) => (Approach::Clearing, Deed::RemoveSocket),
        (Approach::Dialing, _) => (Approach::Over, Deed::FailDial),
        (Approach::Clearing, _) => when_missing(no_spawn),
        (Approach::Starting, Outcome::Started) => (Approach::Redialing, Deed::Dial),
        (Approach::Starting, _) => (Approach::Over, Deed::FailStart),
        (Approach::Redialing, Outcome::Connected) => (Approach::Over, Deed::Use),
        (Approach::Redialing, _) => (Approach::Over, Deed::FailRedial),
        (Approach::Over, _) => (Approach::Over, Deed::FailRedial),
    }
}

/// Decides the next step on the way to the daemon.
pub fn next_deed(state: Approach, outcome: Outcome, no_spawn: bool) -> (r: (Approach, Deed))
    requires
        can_happen(state, outcome),
    ensures
        r == approach_on(state, outcome, no_spawn),
{
    let missing = if no_spawn {
        (Approach::Over, Deed::FailNotRunning)
    } else {
        (Approach::Starting, Deed::StartDaemon)
    };
    match state {
        Approach::Probing => match outcome {
            Outcome::SocketPresent => (Approach::Dialing, Deed::Dial),
            _ => missing,
        },
        Approach::Dialing => match outcome {
            Outcome::Connected => (Approach::Over, Deed::Use),
            Outcome::Refused => (Approach::Clearing, Deed::RemoveSocket),
            _ => (Approach::Over, Deed::FailDial),
        },
        Approach::Clearing => missing,
        Approach::Starting => match outcome {
            Outcome::Started => (Approach::Redialing, Deed::Dial),
            _ => (Approach::Over, Deed::FailStart),
        },
        Approach::Redialing => match outcome {
            Outcome::Connected => (Approach::Over, Deed::Use),
            _ => (Approach::Over, Deed::FailRedial),
        },
        Approach::Over => (Approach::Over, Deed::FailRedial),
    }
}

/// Each deed has its cause. A connection is used exactly when one was made, whether or not the
/// daemon may be started; what may be started matters only where no daemon is there.
pub proof fn each_deed_has_its_cause(state: Approach, outcome: Outcome, no_spawn: bool)
    requires
        can_happen(state, outcome),
    ensures
        ({
            let deed = approach_on(state, outcome, no_spawn).1;
            let absent = outcome is SocketMissing || outcome is Removed;
            &&& deed is Use <==> outcome is Connected
            &&& deed is Dial <==> outcome is SocketPresent || outcome is Started
            &&& deed is RemoveSocket <==> state is Dialing && outcome is Refused
            &&& deed is StartDaemon <==> absent && !no_spawn
            &&& deed is FailNotRunning <==> absent && no_spawn
            &&& deed is FailDial <==> state is Dialing && outcome is DialFailed
            &&& deed is FailStart <==> outcome is StartFailed
            &&& deed is FailRedial <==> state is Redialing && !(outcome is Connected)
        }),
{
}

/// What can come of a deed fits the deed: dialing succeeds, is refused or fails, whichever socket
/// is dialed; a socket is removed; a daemon is started or is not. Nothing comes of using a
/// connection, nor of failing: these deeds end the way, and no other deed does.
pub proof fn outcomes_fit_their_deed(state: Approach, outcome: Outcome, no_spawn: bool, next: Outcome)
    requires
        can_happen(state, outcome),
    ensures
        ({
            let (then, deed) = approach_on(state, outcome, no_spawn);
            &&& deed is Dial ==> (can_happen(then, next) <==> next is Connected || next is Refused
                || next is DialFailed)
            &&& deed is RemoveSocket ==> (can_happen(then, next) <==> next is Removed)
            &&& deed is StartDaemon ==> (can_happen(then, next) <==> next is Started || next
                is StartFailed)
            &&& then is Over <==> !(deed is Dial) && !(deed is RemoveSocket) && !(deed
                is StartDaemon)
            &&& then is Over ==> !can_happen(then, next)
        }),
{
}

/// A way begins with a look at the socket. A socket is dialed a second time only after the daemon
/// was started, and such a socket is not removed.
pub proof fn second_dial_follows_a_start(state: Approach, outcome: Outcome, no_spawn: bool)
    requires
        can_happen(state, outcome),
    ensures
        approach_on(state, outcome, no_spawn).0 is Redialing <==> outcome is Started,
        approach_on(state, outcome, no_spawn).0 is Dialing <==> outcome is SocketPresent,
        approach_on(state, outcome, no_spawn).0 is Clearing <==> state is Dialing && outcome
            is Refused,
        approach_on(state, outcome, no_spawn).0 is Starting <==> !no_spawn && (outcome
            is SocketMissing || outcome is Removed),
        can_happen(Approach::Probing, outcome) <==> outcome is SocketMissing || outcome
            is SocketPresent,
{
}

/// The steps that are left at most.
pub open spec fn steps_left(state: Approach) -> nat {
    match state {
        Approach::Probing => 5,
        Approach::Dialing => 4,
        Approach::Clearing => 3,
        Approach::Starting => 2,
        Approach::Redialing => 1,
        Approach::Over => 0,
    }
}

/// The states and the deeds of a way to the daemon, given what becomes of each deed.
pub open spec fn way(state: Approach, outcomes: Seq<Outcome>, no_spawn: bool) -> Seq<
    (Approach, Deed),
>
    decreases outcomes.len(),
{
    if outcomes.len() == 0 || !can_happen(state, outcomes[0]) {
        seq![]
    } else {
        let step = approach_on(state, outcomes[0], no_spawn);
        seq![step] + way(step.0, outcomes.drop_first(), no_spawn)
    }
}

/// Every way to the daemon ends after at most five steps. Where starting the daemon is
/// forbidden it is never started, and otherwise it is started at most once.
pub proof fn way_is_short(state: Approach, outcomes: Seq<Outcome>, no_spawn: bool)
    ensures
        way(state, outcomes, no_spawn).len() <= steps_left(state),
        no_spawn ==> forall|i: int|
            0 <= i < way(state, outcomes, no_spawn).len() ==> !((#[trigger] way(
                state,
                outcomes,
                no_spawn,
            )[i]).1 is StartDaemon),
        forall|i: int, j: int|
            0 <= i < j < way(state, outcomes, no_spawn).len() && (#[trigger] way(
                state,
                outcomes,
                no_spawn,
            )[i]).1 is StartDaemon ==> !((#[trigger] way(state, outcomes, no_spawn)[j]).1
                is StartDaemon),
    decreases outcomes.len(),
{
    if outcomes.len() > 0 && can_happen(state, outcomes[0]) {
        let step = approach_on(state, outcomes[0], no_spawn);
        let rest = way(step.0, outcomes.drop_first(), no_spawn);
        way_is_short(step.0, outcomes.drop_first(), no_spawn);
        let w = way(state, outcomes, no_spawn);
        assert(w[0] == step);
        assert(forall|i: int| 1 <= i < w.len() ==> #[trigger] w[i] == rest[i - 1]);
        if step.1 is StartDaemon {
            started_only_before(step.0, outcomes.drop_first(), no_spawn);
        }
    }
}

proof fn started_only_before(state: Approach, outcomes: Seq<Outcome>, no_spawn: bool)
    requires
        state is Starting || state is Redialing || state is Over,
    ensures
        forall|i: int|
            0 <= i < way(state, outcomes, no_spawn).len() ==> !((#[trigger] way(
                state,
                outcomes,
                no_spawn,
            )[i]).1 is StartDaemon),
    decreases outcomes.len(),
{
    if outcomes.len() > 0 && can_happen(state, outcomes[0]) {
        let step = approach_on(state, outcomes[0], no_spawn);
        started_only_before(step.0, outcomes.drop_first(), no_spawn);
        let w = way(state, outcomes, no_spawn);
        let rest = way(step.0, outcomes.drop_first(), no_spawn);
        assert(w[0] == step);
        assert(forall|i: int| 1 <= i < w.len() ==> #[trigger] w[i] == rest[i - 1]);
    }
}

/// Whether the daemon may be started makes no difference to a way on which no socket is missing
/// and none is removed.
pub proof fn no_spawn_matters_only_without_a_daemon(state: Approach, outcomes: Seq<Outcome>)
    requires
        forall|i: int|
            0 <= i < outcomes.len() ==> !((#[trigger] outcomes[i]) is SocketMissing)
                && !(outcomes[i] is Removed),
    ensures
        way(state, outcomes, true) == way(state, outcomes, false),
    decreases outcomes.len(),
{
    if outcomes.len() > 0 && can_happen(state, outcomes[0]) {
        let rest = outcomes.drop_first();
        assert(forall|i: int| 0 <= i < rest.len() ==> #[trigger] rest[i] == outcomes[i + 1]);
        no_spawn_matters_only_without_a_daemon(approach_on(state, outcomes[0], true).0, rest);
    }
}

/// A way that ends well ends with a connection that was made: the connection is used, and that
/// is the last deed.
pub proof fn connection_that_is_made_is_used(
    state: Approach,
    outcomes: Seq<Outcome>,
    no_spawn: bool,
    i: int,
)
    requires
        0 <= i < way(state, outcomes, no_spawn).len(),
    ensures
        i < outcomes.len(),
        way(state, outcomes, no_spawn)[i].1 is Use <==> outcomes[i] is Connected,
        way(state, outcomes, no_spawn)[i].1 is Use ==> i == way(state, outcomes, no_spawn).len()
            - 1,
    decreases outcomes.len(),
{
    let step = approach_on(state, outcomes[0], no_spawn);
    let rest = outcomes.drop_first();
    let w = way(state, outcomes, no_spawn);
    assert(w =~= seq![step] + way(step.0, rest, no_spawn));
    if i > 0 {
        connection_that_is_made_is_used(step.0, rest, no_spawn, i - 1);
        assert(w[i] == way(step.0, rest, no_spawn)[i - 1]);
        assert(rest[i - 1] == outcomes[i]);
    }
}

/// A socket is removed only when a connection to it was refused.
pub proof fn only_orphans_are_removed(state: Approach, outcome: Outcome, no_spawn: bool)
    requires
        can_happen(state, outcome),
        approach_on(state, outcome, no_spawn).1 is RemoveSocket,
    ensures
        state is Dialing,
        outcome is Refused,
{
}

/// What to do while the daemon is starting.
#[derive(Debug, Clone, Copy, PartialEq, Eq)]
pub enum Wait {
    /// The socket is there.
    Ready,
    /// Sleep, then look again.
    Sleep,
    /// It has taken too long.
    GiveUp,
}

/// How to go on waiting, `elapsed_nanos` after the daemon was started.
pub open spec fn wait_on(elapsed_nanos: u128, socket_present: bool) -> Wait {
    if elapsed_nanos >= START_TIMEOUT_NANOS {
        Wait::GiveUp
    } else if socket_present {
        Wait::Ready
    } else {
        Wait::Sleep
    }
}

/// Waiting is given up from five seconds on and not before, whether or not the socket is there.
/// Before that, the socket alone decides.
pub proof fn waiting_has_a_deadline(elapsed_nanos: u128, later: u128, socket_present: bool)
    requires
        elapsed_nanos <= later,
    ensures
        wait_on(elapsed_nanos, socket_present) is GiveUp <==> elapsed_nanos >= 5 * 1_000_000_000,
        wait_on(elapsed_nanos, socket_present) is GiveUp ==> wait_on(later, socket_present)
            is GiveUp,
        elapsed_nanos < 5 * 1_000_000_000 ==> (wait_on(elapsed_nanos, socket_present) is Ready
            <==> socket_present),
        wait_on(elapsed_nanos, socket_present) is Ready ==> socket_present,
{
}

/// Decides how to go on waiting, `elapsed_nanos` after the daemon was started.
pub fn next_wait(elapsed_nanos: u128, socket_present: bool) -> (r: Wait)
    ensures
        r == wait_on(elapsed_nanos, socket_present),
        r == (if elapsed_nanos >= START_TIMEOUT_NANOS {
            Wait::GiveUp
        } else if socket_present {
            Wait::Ready
        } else {
            Wait::Sleep
        }),
{
    if elapsed_nanos >= START_TIMEOUT_NANOS {
        Wait::GiveUp
    } else if socket_present {
        Wait::Ready
    } else {
        Wait::Sleep
    }
}

} // verus!
