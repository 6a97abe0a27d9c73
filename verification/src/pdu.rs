//! The requests that commands send to the daemon.

use vstd::prelude::*;

use crate::command::Command;
use crate::error::CliError;
use crate::json;
use crate::paths;
use crate::paths::Location;
use crate::value;
use crate::value::{Members, Tree, Value};

verus! {

/// `cmd` is a request to the daemon.
pub open spec fn is_request(cmd: Command) -> bool {
    match cmd {
        Command::ForegroundDaemon => false,
        Command::Completion { .. } => false,
        Command::Status { .. } => false,
        Command::InstallAgent => false,
        Command::UninstallAgent => false,
        _ => true,
    }
}

/// The name under which the daemon knows the command.
pub open spec fn wire_name(cmd: Command) -> Seq<char> {
    match cmd {
        Command::GetSockname => "get-sockname"@,
        Command::GetPid => "get-pid"@,
        Command::Version { .. } => "version"@,
        Command::ListCapabilities => "list-capabilities"@,
        Command::WatchProject { .. } => "watch-project"@,
        Command::Watch { .. } => "watch"@,
        Command::WatchList => "watch-list"@,
        Command::WatchDel { .. } => "watch-del"@,
        Command::WatchDelAll => "watch-del-all"@,
        Command::Clock { .. } => "clock"@,
        Command::Query { .. } => "query"@,
        Command::Subscribe { .. } => "subscribe"@,
        Command::Unsubscribe { .. } => "unsubscribe"@,
        Command::FlushSubscriptions { .. } => "flush-subscriptions"@,
        Command::StateEnter { .. } => "state-enter"@,
        Command::StateLeave { .. } => "state-leave"@,
        Command::GetConfig { .. } => "get-config"@,
        Command::LogLevel { .. } => "log-level"@,
        Command::Log { .. } => "log"@,
        Command::ShutdownServer => "shutdown-server"@,
        Command::DebugRecrawl { .. } => "debug-recrawl"@,
        Command::DebugAgeout { .. } => "debug-ageout"@,
        Command::DebugShowCursors { .. } => "debug-show-cursors"@,
        Command::DebugPollForSettle { .. } => "debug-poll-for-settle"@,
        Command::Find { .. } => "find"@,
        Command::Since { .. } => "since"@,
        Command::Trigger { .. } => "trigger"@,
        Command::TriggerList { .. } => "trigger-list"@,
        Command::TriggerDel { .. } => "trigger-del"@,
        Command::GetLog => "get-log"@,
        Command::GlobalLogLevel { .. } => "global-log-level"@,
        Command::DebugContenthash { .. } => "debug-contenthash"@,
        Command::DebugStatus => "debug-status"@,
        Command::DebugRootStatus { .. } => "debug-root-status"@,
        Command::DebugWatcherInfo { .. } => "debug-watcher-info"@,
        Command::DebugWatcherInfoClear => "debug-watcher-info-clear"@,
        Command::DebugGetAssertedStates { .. } => "debug-get-asserted-states"@,
        Command::DebugGetSubscriptions { .. } => "debug-get-subscriptions"@,
        Command::DebugKqueueAndFsEventsRecrawl { .. } => "debug-kqueue-and-fsevents-recrawl"@,
        Command::DebugFsEventsInjectDrop { .. } => "debug-fsevents-inject-drop"@,
        Command::DebugSetParallelCrawl => "debug-set-parallel-crawl"@,
        Command::DebugSetSubscriptionsPaused => "debug-set-subscriptions-paused"@,
        Command::DebugSymlinkTargetCache => "debug-symlink-target-cache"@,
        _ => ""@,
    }
}

/// The path that the command is about, as it was given.
pub open spec fn path_of(cmd: Command) -> Option<Seq<char>> {
    match cmd {
        Command::WatchProject { path, .. } => Some(path@),
        Command::Watch { path, .. } => Some(path@),
        Command::WatchDel { path, .. } => Some(path@),
        Command::Clock { path, .. } => Some(path@),
        Command::Query { path, .. } => Some(path@),
        Command::Subscribe { path, .. } => Some(path@),
        Command::Unsubscribe { path, .. } => Some(path@),
        Command::FlushSubscriptions { path, .. } => Some(path@),
        Command::StateEnter { path, .. } => Some(path@),
        Command::StateLeave { path, .. } => Some(path@),
        Command::GetConfig { path, .. } => Some(path@),
        Command::DebugRecrawl { path, .. } => Some(path@),
        Command::DebugAgeout { path, .. } => Some(path@),
        Command::DebugShowCursors { path, .. } => Some(path@),
        Command::DebugPollForSettle { path, .. } => Some(path@),
        Command::Find { path, .. } => Some(path@),
        Command::Since { path, .. } => Some(path@),
        Command::Trigger { path, .. } => Some(path@),
        Command::TriggerList { path, .. } => Some(path@),
        Command::TriggerDel { path, .. } => Some(path@),
        Command::DebugContenthash { path, .. } => Some(path@),
        Command::DebugRootStatus { path, .. } => Some(path@),
        Command::DebugWatcherInfo { path, .. } => Some(path@),
        Command::DebugGetAssertedStates { path, .. } => Some(path@),
        Command::DebugGetSubscriptions { path, .. } => Some(path@),
        Command::DebugKqueueAndFsEventsRecrawl { path, .. } => Some(path@),
        Command::DebugFsEventsInjectDrop { path, .. } => Some(path@),
        _ => None,
    }
}

/// The JSON text that the command was given, and what it is called in complaints about it.
pub open spec fn document_of(cmd: Command) -> Option<(Seq<char>, Seq<char>)> {
    match cmd {
        Command::Query { query, .. } => Some((query@, "query"@)),
        Command::Subscribe { query, .. } => Some((query@, "subscribe"@)),
        Command::Trigger { spec, .. } => Some((spec@, "trigger spec"@)),
        Command::Raw { pdu } => Some((pdu@, "raw PDU"@)),
        _ => None,
    }
}

/// Each text as a tree.
pub open spec fn text_trees(s: Seq<String>) -> Seq<Tree> {
    Seq::new(s.len(), |i: int| Tree::Text(s[i]@))
}

/// The capabilities that a version probe asks for.
pub open spec fn probe_members(required: Seq<String>, optional: Seq<String>) -> Seq<
    (Seq<char>, Tree),
> {
    let r = seq![("required"@, Tree::Array(text_trees(required)))];
    let o = seq![("optional"@, Tree::Array(text_trees(optional)))];
    if required.len() > 0 && optional.len() > 0 {
        r + o
    } else if required.len() > 0 {
        r
    } else {
        o
    }
}

/// `u` in the range of the protocol's integers: what is above it wraps around.
pub open spec fn wrapped(u: u64) -> i64 {
    if u <= i64::MAX {
        u as i64
    } else {
        (u - 0x1_0000_0000_0000_0000) as i64
    }
}

/// What follows the name and the path in the request; `document` is what the JSON text of the
/// command stands for.
pub open spec fn arguments(cmd: Command, document: Tree) -> Seq<Tree> {
    match cmd {
        Command::Version { required, optional } => if required@.len() > 0 || optional@.len() > 0 {
            seq![Tree::Object(probe_members(required@, optional@))]
        } else {
            seq![]
        },
        Command::Query { .. } => seq![document],
        Command::Subscribe { name, .. } => seq![Tree::Text(name@), document],
        Command::Unsubscribe { name, .. } => seq![Tree::Text(name@)],
        Command::FlushSubscriptions { timeout_ms, .. } => seq![Tree::Int(wrapped(timeout_ms))],
        Command::StateEnter { name, .. } => seq![Tree::Text(name@)],
        Command::StateLeave { name, .. } => seq![Tree::Text(name@)],
        Command::LogLevel { level: Some(l) } => seq![Tree::Text(l@)],
        Command::Log { level, message } => seq![Tree::Text(level@), Tree::Text(message@)],
        Command::DebugAgeout { age, .. } => seq![Tree::Int(age)],
        Command::Find { patterns, .. } => text_trees(patterns@),
        Command::Since { clock, .. } => seq![Tree::Text(clock@)],
        Command::Trigger { .. } => seq![document],
        Command::TriggerDel { name, .. } => seq![Tree::Text(name@)],
        Command::GlobalLogLevel { level: Some(l) } => seq![Tree::Text(l@)],
        _ => seq![],
    }
}

/// The request of the command: its name, its path made absolute, and its arguments. A raw
/// request is the document itself.
pub open spec fn request(cmd: Command, absolute: Seq<char>, document: Tree) -> Tree {
    if cmd is Raw {
        document
    } else {
        let path = if path_of(cmd) is Some {
            seq![Tree::Text(absolute)]
        } else {
            seq![]
        };
        Tree::Array(seq![Tree::Text(wire_name(cmd))] + path + arguments(cmd, document))
    }
}

fn name_of(cmd: &Command) -> (r: &'static str)
    ensures
        r@ == wire_name(*cmd),
{
    match cmd {
        Command::GetSockname => "get-sockname",
        Command::GetPid => "get-pid",
        Command::Version { .. } => "version",
        Command::ListCapabilities => "list-capabilities",
        Command::WatchProject { .. } => "watch-project",
        Command::Watch { .. } => "watch",
        Command::WatchList => "watch-list",
        Command::WatchDel { .. } => "watch-del",
        Command::WatchDelAll => "watch-del-all",
        Command::Clock { .. } => "clock",
        Command::Query { .. } => "query",
        Command::Subscribe { .. } => "subscribe",
        Command::Unsubscribe { .. } => "unsubscribe",
        Command::FlushSubscriptions { .. } => "flush-subscriptions",
        Command::StateEnter { .. } => "state-enter",
        Command::StateLeave { .. } => "state-leave",
        Command::GetConfig { .. } => "get-config",
        Command::LogLevel { .. } => "log-level",
        Command::Log { .. } => "log",
        Command::ShutdownServer => "shutdown-server",
        Command::DebugRecrawl { .. } => "debug-recrawl",
        Command::DebugAgeout { .. } => "debug-ageout",
        Command::DebugShowCursors { .. } => "debug-show-cursors",
        Command::DebugPollForSettle { .. } => "debug-poll-for-settle",
        Command::Find { .. } => "find",
        Command::Since { .. } => "since",
        Command::Trigger { .. } => "trigger",
        Command::TriggerList { .. } => "trigger-list",
        Command::TriggerDel { .. } => "trigger-del",
        Command::GetLog => "get-log",
        Command::GlobalLogLevel { .. } => "global-log-level",
        Command::DebugContenthash { .. } => "debug-contenthash",
        Command::DebugStatus => "debug-status",
        Command::DebugRootStatus { .. } => "debug-root-status",
        Command::DebugWatcherInfo { .. } => "debug-watcher-info",
        Command::DebugWatcherInfoClear => "debug-watcher-info-clear",
        Command::DebugGetAssertedStates { .. } => "debug-get-asserted-states",
        Command::DebugGetSubscriptions { .. } => "debug-get-subscriptions",
        Command::DebugKqueueAndFsEventsRecrawl { .. } => "debug-kqueue-and-fsevents-recrawl",
        Command::DebugFsEventsInjectDrop { .. } => "debug-fsevents-inject-drop",
        Command::DebugSetParallelCrawl => "debug-set-parallel-crawl",
        Command::DebugSetSubscriptionsPaused => "debug-set-subscriptions-paused",
        Command::DebugSymlinkTargetCache => "debug-symlink-target-cache",
        _ => "",
    }
}

/// The path that a command is about, as it was given.
pub fn path_argument(cmd: &Command) -> (r: Option<&str>)
    ensures
        r is Some <==> path_of(*cmd) is Some,
        r matches Some(p) ==> path_of(*cmd) == Some(p@),
{
    match cmd {
        Command::WatchProject { path, .. } => Some(path.as_str()),
        Command::Watch { path, .. } => Some(path.as_str()),
        Command::WatchDel { path, .. } => Some(path.as_str()),
        Command::Clock { path, .. } => Some(path.as_str()),
        Command::Query { path, .. } => Some(path.as_str()),
        Command::Subscribe { path, .. } => Some(path.as_str()),
        Command::Unsubscribe { path, .. } => Some(path.as_str()),
        Command::FlushSubscriptions { path, .. } => Some(path.as_str()),
        Command::StateEnter { path, .. } => Some(path.as_str()),
        Command::StateLeave { path, .. } => Some(path.as_str()),
        Command::GetConfig { path, .. } => Some(path.as_str()),
        Command::DebugRecrawl { path, .. } => Some(path.as_str()),
        Command::DebugAgeout { path, .. } => Some(path.as_str()),
        Command::DebugShowCursors { path, .. } => Some(path.as_str()),
        Command::DebugPollForSettle { path, .. } => Some(path.as_str()),
        Command::Find { path, .. } => Some(path.as_str()),
        Command::Since { path, .. } => Some(path.as_str()),
        Command::Trigger { path, .. } => Some(path.as_str()),
        Command::TriggerList { path, .. } => Some(path.as_str()),
        Command::TriggerDel { path, .. } => Some(path.as_str()),
        Command::DebugContenthash { path, .. } => Some(path.as_str()),
        Command::DebugRootStatus { path, .. } => Some(path.as_str()),
        Command::DebugWatcherInfo { path, .. } => Some(path.as_str()),
        Command::DebugGetAssertedStates { path, .. } => Some(path.as_str()),
        Command::DebugGetSubscriptions { path, .. } => Some(path.as_str()),
        Command::DebugKqueueAndFsEventsRecrawl { path, .. } => Some(path.as_str()),
        Command::DebugFsEventsInjectDrop { path, .. } => Some(path.as_str()),
        _ => None,
    }
}

/// The JSON text that a command was given, and what it is called in complaints about it.
pub fn document_argument(cmd: &Command) -> (r: Option<(&str, &'static str)>)
    ensures
        r is Some <==> document_of(*cmd) is Some,
        r matches Some(d) ==> document_of(*cmd) == Some((d.0@, d.1@)),
{
    match cmd {
        Command::Query { query, .. } => Some((query.as_str(), "query")),
        Command::Subscribe { query, .. } => Some((query.as_str(), "subscribe")),
        Command::Trigger { spec, .. } => Some((spec.as_str(), "trigger spec")),
        Command::Raw { pdu } => Some((pdu.as_str(), "raw PDU")),
        _ => None,
    }
}

fn push_texts(parts: &mut Vec<Value>, texts: &Vec<String>)
    ensures
        value::trees_of(final(parts)@) == value::trees_of(old(parts)@) + text_trees(texts@),
{
    let mut i: usize = 0;
    while i < texts.len()
        invariant
            i <= texts@.len(),
            value::trees_of(parts@) =~= value::trees_of(old(parts)@) + text_trees(
                texts@,
            ).take(i as int),
        decreases texts@.len() - i,
    {
        push_text(parts, texts[i].as_str());
        assert(text_trees(texts@).take(i + 1) =~= text_trees(texts@).take(i as int) + seq![
            Tree::Text(texts@[i as int]@),
        ]);
        i = i + 1;
    }
    assert(text_trees(texts@).take(i as int) =~= text_trees(texts@));
}

fn push_text(parts: &mut Vec<Value>, text: &str)
    ensures
        value::trees_of(final(parts)@) == value::trees_of(old(parts)@) + seq![Tree::Text(text@)],
{
    parts.push(Value::String(text.to_owned()));
    assert(value::trees_of(parts@) =~= value::trees_of(old(parts)@) + seq![Tree::Text(text@)]);
}

fn push_value(parts: &mut Vec<Value>, v: Value)
    ensures
        value::trees_of(final(parts)@) == value::trees_of(old(parts)@) + seq![v@],
{
    parts.push(v);
    assert(value::trees_of(parts@) =~= value::trees_of(old(parts)@) + seq![v@]);
}

fn text_list(texts: &Vec<String>) -> (r: Value)
    ensures
        r@ == Tree::Array(text_trees(texts@)),
{
    let mut parts: Vec<Value> = Vec::new();
    push_texts(&mut parts, texts);
    proof {
        value::array_tree(parts);
    }
    assert(value::trees_of(parts@) =~= text_trees(texts@));
    Value::Array(parts)
}

fn probe(required: &Vec<String>, optional: &Vec<String>) -> (r: Value)
    requires
        required@.len() > 0 || optional@.len() > 0,
    ensures
        r@ == Tree::Object(probe_members(required@, optional@)),
{
    let mut m = Members::new();
    proof {
        reveal_strlit("required");
        reveal_strlit("optional");
    }
    assert("required"@[0] != "optional"@[0]);
    if required.len() > 0 {
        m.insert("required".to_owned(), text_list(required));
    }
    if optional.len() > 0 {
        m.insert("optional".to_owned(), text_list(optional));
    }
    assert(m@ =~= probe_members(required@, optional@));
    Value::Object(m)
}

fn push_arguments(parts: &mut Vec<Value>, cmd: &Command, document: Value)
    requires
        is_request(*cmd),
    ensures
        value::trees_of(final(parts)@) == value::trees_of(old(parts)@) + arguments(
            *cmd,
            document@,
        ),
{
    match cmd {
        Command::Version { required, optional } => {
            if required.len() > 0 || optional.len() > 0 {
                push_value(parts, probe(required, optional));
            }
        },
        Command::Query { .. } => push_value(parts, document),
        Command::Subscribe { name, .. } => {
            push_text(parts, name.as_str());
            push_value(parts, document);
        },
        Command::Unsubscribe { name, .. } => push_text(parts, name.as_str()),
        Command::FlushSubscriptions { timeout_ms, .. } => push_value(
            parts,
            Value::Int(wrap(*timeout_ms)),
        ),
        Command::StateEnter { name, .. } => push_text(parts, name.as_str()),
        Command::StateLeave { name, .. } => push_text(parts, name.as_str()),
        Command::LogLevel { level: Some(l) } => push_text(parts, l.as_str()),
        Command::Log { level, message } => {
            push_text(parts, level.as_str());
            push_text(parts, message.as_str());
        },
        Command::DebugAgeout { age, .. } => push_value(parts, Value::Int(*age)),
        Command::Find { patterns, .. } => push_texts(parts, patterns),
        Command::Since { clock, .. } => push_text(parts, clock.as_str()),
        Command::Trigger { .. } => push_value(parts, document),
        Command::TriggerDel { name, .. } => push_text(parts, name.as_str()),
        Command::GlobalLogLevel { level: Some(l) } => push_text(parts, l.as_str()),
        _ => {},
    }
    assert(value::trees_of(parts@) =~= value::trees_of(old(parts)@) + arguments(*cmd, document@));
}

/// Puts the request of a command together from the path made absolute and from the value that
/// its JSON text stands for. A command without a path or without a JSON text makes no use of
/// them.
pub fn assemble_pdu(cmd: &Command, absolute: &str, document: Value) -> (r: Value)
    requires
        is_request(*cmd),
    ensures
        r@ == request(*cmd, absolute@, document@),
{
    if let Command::Raw { .. } = cmd {
        return document;
    }
    let mut parts: Vec<Value> = Vec::new();
    push_text(&mut parts, name_of(cmd));
    if path_argument(cmd).is_some() {
        push_text(&mut parts, absolute);
    }
    push_arguments(&mut parts, cmd, document);
    proof {
        value::array_tree(parts);
    }
    assert(value::trees_of(parts@) =~= request(*cmd, absolute@, document@)->Array_0);
    Value::Array(parts)
}

fn wrap(u: u64) -> (r: i64)
    ensures
        r == wrapped(u),
{
    if u <= i64::MAX as u64 {
        u as i64
    } else {
        (u as i128 - 0x1_0000_0000_0000_0000i128) as i64
    }
}

/// The path of the command made absolute.
pub open spec fn absolute_path(cmd: Command, at: Location) -> Seq<char> {
    match path_of(cmd) {
        Some(p) => paths::absolute(p, at),
        None => seq![],
    }
}

/// What comes of building the request of a command: the request, or the complaint about the JSON
/// text of the command.
pub open spec fn pdu_of(cmd: Command, at: Location) -> Result<Tree, (Seq<char>, Seq<char>)> {
    match document_of(cmd) {
        None => Ok(request(cmd, absolute_path(cmd, at), Tree::Null)),
        Some(d) => match json::read_as(d.0, "parsing "@ + d.1 + " JSON"@) {
            Ok(t) => Ok(request(cmd, absolute_path(cmd, at), t)),
            Err(c) => Err(c),
        },
    }
}

/// A request can be built exactly when the JSON text of the command is JSON, or when the command
/// has none. Where the file system finds the path does not matter for that, and a command that is
/// about no path has the same request everywhere.
pub proof fn only_bad_json_is_refused(cmd: Command, at: Location, elsewhere: Location)
    requires
        is_request(cmd),
    ensures
        pdu_of(cmd, at) is Err <==> document_of(cmd) is Some && json::json_reading(
            (document_of(cmd)->0).0,
        ) is Err,
        pdu_of(cmd, at) is Ok <==> pdu_of(cmd, elsewhere) is Ok,
        pdu_of(cmd, at) is Err ==> pdu_of(cmd, at) == pdu_of(cmd, elsewhere),
        path_of(cmd) is None ==> pdu_of(cmd, at) == pdu_of(cmd, elsewhere),
{
}

/// A query, a subscription and a trigger are sent with what their JSON text stands for as the
/// last element, and with the path made absolute as the second; a raw request is what its JSON
/// text stands for. A complaint says what was being read, and gives the reader's words.
pub proof fn documents_are_sent_as_read(
    path: String,
    name: String,
    document: String,
    at: Location,
    j: json::Json,
    cause: Seq<char>,
)
    ensures
        json::json_reading(document@) == Ok::<json::Json, Seq<char>>(j) ==> {
            &&& pdu_of((Command::Raw { pdu: document }), at) == Ok::<
                Tree,
                (Seq<char>, Seq<char>),
            >(json::of_json(j))
            &&& pdu_of((Command::Query { path, query: document }), at) == Ok::<
                Tree,
                (Seq<char>, Seq<char>),
            >(
                Tree::Array(
                    seq![
                        Tree::Text("query"@),
                        Tree::Text(paths::absolute(path@, at)),
                        json::of_json(j),
                    ],
                ),
            )
            &&& pdu_of((Command::Trigger { path, spec: document }), at) == Ok::<
                Tree,
                (Seq<char>, Seq<char>),
            >(
                Tree::Array(
                    seq![
                        Tree::Text("trigger"@),
                        Tree::Text(paths::absolute(path@, at)),
                        json::of_json(j),
                    ],
                ),
            )
            &&& pdu_of((Command::Subscribe { path, name, query: document }), at) == Ok::<
                Tree,
                (Seq<char>, Seq<char>),
            >(
                Tree::Array(
                    seq![
                        Tree::Text("subscribe"@),
                        Tree::Text(paths::absolute(path@, at)),
                        Tree::Text(name@),
                        json::of_json(j),
                    ],
                ),
            )
        },
        json::json_reading(document@) == Err::<json::Json, Seq<char>>(cause) ==> {
            &&& pdu_of((Command::Raw { pdu: document }), at) == Err::<
                Tree,
                (Seq<char>, Seq<char>),
            >(("parsing "@ + "raw PDU"@ + " JSON"@, cause))
            &&& pdu_of((Command::Query { path, query: document }), at) == Err::<
                Tree,
                (Seq<char>, Seq<char>),
            >(("parsing "@ + "query"@ + " JSON"@, cause))
            &&& pdu_of((Command::Trigger { path, spec: document }), at) == Err::<
                Tree,
                (Seq<char>, Seq<char>),
            >(("parsing "@ + "trigger spec"@ + " JSON"@, cause))
            &&& pdu_of((Command::Subscribe { path, name, query: document }), at) == Err::<
                Tree,
                (Seq<char>, Seq<char>),
            >(("parsing "@ + "subscribe"@ + " JSON"@, cause))
        },
{
    if json::json_reading(document@) is Ok {
        let t = json::of_json(j);
        let a = paths::absolute(path@, at);
        let q = request(Command::Query { path, query: document }, a, t)->Array_0;
        let g = request(Command::Trigger { path, spec: document }, a, t)->Array_0;
        let s = request(Command::Subscribe { path, name, query: document }, a, t)->Array_0;
        assert(q =~= seq![Tree::Text("query"@), Tree::Text(a), t]);
        assert(g =~= seq![Tree::Text("trigger"@), Tree::Text(a), t]);
        assert(s =~= seq![Tree::Text("subscribe"@), Tree::Text(a), Tree::Text(name@), t]);
    }
}

/// The request of a command. `at` is what the file system says about the path of the command. A
/// raw document is sent as it is, where its integers are in range.
pub fn build_pdu(cmd: &Command, at: &Location) -> (r: Result<Value, CliError>)
    requires
        is_request(*cmd),
    ensures
        json::comes_to(r, pdu_of(*cmd, *at)),
        document_of(*cmd) is None ==> r is Ok && r->Ok_0@ == request(
            *cmd,
            absolute_path(*cmd, *at),
            Tree::Null,
        ),
        document_of(*cmd) matches Some(d) ==> match json::json_reading(d.0) {
            Ok(j) => r is Ok && r->Ok_0@ == request(
                *cmd,
                absolute_path(*cmd, *at),
                json::of_json(j),
            ) && json::well_formed(j),
            Err(e) => r is Err && json::is_json_error(
                r->Err_0,
                "parsing "@ + d.1 + " JSON"@,
                e,
            ),
        },
        cmd is Raw && r is Ok && json::in_range(json::json_reading(cmd->pdu@)->Ok_0)
            ==> json::to_json(r->Ok_0@) == json::json_reading(cmd->pdu@)->Ok_0,
{
    let absolute = match path_argument(cmd) {
        Some(p) => paths::absolutise(p, at),
        None => String::new(),
    };
    match document_argument(cmd) {
        None => Ok(assemble_pdu(cmd, absolute.as_str(), Value::Null)),
        Some(d) => match json::parse_json(d.0, d.1) {
            Ok(v) => {
                proof {
                    let j = json::json_reading(d.0@)->Ok_0;
                    if json::in_range(j) {
                        json::document_survives(j);
                    }
                }
                Ok(assemble_pdu(cmd, absolute.as_str(), v))
            },
            Err(e) => Err(e),
        },
    }
}

/// The request for the status of the daemon.
pub fn status_pdu() -> (r: Value)
    ensures
        r@ == Tree::Array(seq![Tree::Text("status"@)]),
{
    let mut parts: Vec<Value> = Vec::new();
    push_text(&mut parts, "status");
    proof {
        value::array_tree(parts);
    }
    assert(value::trees_of(parts@) =~= seq![Tree::Text("status"@)]);
    Value::Array(parts)
}

/// A request other than a raw one is an array that opens with the name of its command, followed
/// by the absolute path where the command is about one.
pub proof fn request_opens_with_its_name(cmd: Command, at: Location, document: Tree)
    requires
        is_request(cmd),
        !(cmd is Raw),
    ensures
        request(cmd, absolute_path(cmd, at), document) is Array,
        request(cmd, absolute_path(cmd, at), document)->Array_0.len() >= 1,
        request(cmd, absolute_path(cmd, at), document)->Array_0[0] == Tree::Text(wire_name(cmd)),
        path_of(cmd) matches Some(p) ==> {
            &&& request(cmd, absolute_path(cmd, at), document)->Array_0.len() >= 2
            &&& request(cmd, absolute_path(cmd, at), document)->Array_0[1] == Tree::Text(
                paths::absolute(p, at),
            )
        },
{
}

/// The command has no arguments.
pub open spec fn is_bare(cmd: Command) -> bool {
    ||| cmd is GetSockname
    ||| cmd is GetPid
    ||| cmd is ListCapabilities
    ||| cmd is WatchList
    ||| cmd is WatchDelAll
    ||| cmd is ShutdownServer
    ||| cmd is GetLog
    ||| cmd is DebugStatus
    ||| cmd is DebugWatcherInfoClear
    ||| cmd is DebugSetParallelCrawl
    ||| cmd is DebugSetSubscriptionsPaused
    ||| cmd is DebugSymlinkTargetCache
}

/// The command is about a path and has no other arguments.
pub open spec fn is_about_a_path_only(cmd: Command) -> bool {
    ||| cmd is WatchProject
    ||| cmd is Watch
    ||| cmd is WatchDel
    ||| cmd is Clock
    ||| cmd is GetConfig
    ||| cmd is DebugRecrawl
    ||| cmd is DebugShowCursors
    ||| cmd is DebugPollForSettle
    ||| cmd is TriggerList
    ||| cmd is DebugContenthash
    ||| cmd is DebugRootStatus
    ||| cmd is DebugWatcherInfo
    ||| cmd is DebugGetAssertedStates
    ||| cmd is DebugGetSubscriptions
    ||| cmd is DebugKqueueAndFsEventsRecrawl
    ||| cmd is DebugFsEventsInjectDrop
}

/// The request of a command without arguments is its name alone. The one of a command that is
/// about a path and nothing else has two elements, the second being the absolute path.
pub proof fn short_requests(cmd: Command, absolute: Seq<char>, document: Tree)
    ensures
        is_bare(cmd) ==> request(cmd, absolute, document) is Array && request(
            cmd,
            absolute,
            document,
        )->Array_0.len() == 1,
        is_about_a_path_only(cmd) ==> {
            &&& request(cmd, absolute, document) is Array
            &&& request(cmd, absolute, document)->Array_0.len() == 2
            &&& request(cmd, absolute, document)->Array_0[1] == Tree::Text(absolute)
        },
{
}

/// The path of a command is the one that it was given, whatever that is and whatever its other
/// arguments are.
pub proof fn path_is_the_one_given(
    path: String,
    name: String,
    document: String,
    texts: Vec<String>,
    timeout_ms: u64,
    age: i64,
)
    ensures
        path_of((Command::WatchProject { path })) == Some(path@),
        path_of((Command::Watch { path })) == Some(path@),
        path_of((Command::WatchDel { path })) == Some(path@),
        path_of((Command::Clock { path })) == Some(path@),
        path_of((Command::GetConfig { path })) == Some(path@),
        path_of((Command::DebugRecrawl { path })) == Some(path@),
        path_of((Command::DebugShowCursors { path })) == Some(path@),
        path_of((Command::DebugPollForSettle { path })) == Some(path@),
        path_of((Command::TriggerList { path })) == Some(path@),
        path_of((Command::DebugContenthash { path })) == Some(path@),
        path_of((Command::DebugRootStatus { path })) == Some(path@),
        path_of((Command::DebugWatcherInfo { path })) == Some(path@),
        path_of((Command::DebugGetAssertedStates { path })) == Some(path@),
        path_of((Command::DebugGetSubscriptions { path })) == Some(path@),
        path_of((Command::DebugKqueueAndFsEventsRecrawl { path })) == Some(path@),
        path_of((Command::DebugFsEventsInjectDrop { path })) == Some(path@),
        path_of((Command::Query { path, query: document })) == Some(path@),
        path_of((Command::Subscribe { path, name, query: document })) == Some(path@),
        path_of((Command::Unsubscribe { path, name })) == Some(path@),
        path_of((Command::FlushSubscriptions { path, timeout_ms })) == Some(path@),
        path_of((Command::StateEnter { path, name })) == Some(path@),
        path_of((Command::StateLeave { path, name })) == Some(path@),
        path_of((Command::DebugAgeout { path, age })) == Some(path@),
        path_of((Command::Find { path, patterns: texts })) == Some(path@),
        path_of((Command::Since { path, clock: name })) == Some(path@),
        path_of((Command::Trigger { path, spec: document })) == Some(path@),
        path_of((Command::TriggerDel { path, name })) == Some(path@),
{
}

/// A command without arguments is about no path, nor are the commands about the version, about
/// logging, and a raw request. All other requests are about one.
pub proof fn which_commands_are_about_a_path(cmd: Command)
    requires
        is_request(cmd),
    ensures
        path_of(cmd) is None <==> is_bare(cmd) || cmd is Version || cmd is LogLevel || cmd is Log
            || cmd is GlobalLogLevel || cmd is Raw,
{
}

/// A request is whatever is neither the daemon itself, nor a completion script, nor the status
/// report, nor about the LaunchAgent.
pub proof fn which_commands_are_requests(cmd: Command)
    ensures
        !is_request(cmd) <==> cmd is ForegroundDaemon || cmd is Completion || cmd is Status || cmd
            is InstallAgent || cmd is UninstallAgent,
{
}

/// The JSON text of a command is the one that it was given, and a complaint about it names the
/// command. No other command has a JSON text.
pub proof fn document_is_the_one_given(path: String, name: String, document: String, cmd: Command)
    ensures
        document_of((Command::Query { path, query: document })) == Some((document@, "query"@)),
        document_of((Command::Subscribe { path, name, query: document })) == Some(
            (document@, "subscribe"@),
        ),
        document_of((Command::Trigger { path, spec: document })) == Some(
            (document@, "trigger spec"@),
        ),
        document_of((Command::Raw { pdu: document })) == Some((document@, "raw PDU"@)),
        document_of(cmd) is Some <==> cmd is Query || cmd is Subscribe || cmd is Trigger || cmd
            is Raw,
{
}

/// A raw request is its document, whatever that is and whatever the path. The document of any
/// other command stands last in its request, and a command without one makes no use of it.
pub proof fn documents_stand_last(cmd: Command, absolute: Seq<char>, document: Tree, other: Tree)
    requires
        is_request(cmd),
    ensures
        cmd is Raw ==> request(cmd, absolute, document) == document,
        !(cmd is Raw) && document_of(cmd) is Some ==> {
            &&& request(cmd, absolute, document)->Array_0.last() == document
            &&& request(cmd, absolute, document)->Array_0.drop_last() == request(
                cmd,
                absolute,
                other,
            )->Array_0.drop_last()
        },
        document_of(cmd) is None ==> request(cmd, absolute, document) == request(
            cmd,
            absolute,
            other,
        ),
{
    if !(cmd is Raw) && document_of(cmd) is Some {
        assert(request(cmd, absolute, document)->Array_0.drop_last() =~= request(
            cmd,
            absolute,
            other,
        )->Array_0.drop_last());
    }
}

/// A command that is about no path makes no use of one; in any other request the path is the
/// second element, and nothing else depends on it.
pub proof fn paths_stand_second(
    cmd: Command,
    absolute: Seq<char>,
    other: Seq<char>,
    document: Tree,
)
    requires
        is_request(cmd),
    ensures
        path_of(cmd) is None ==> request(cmd, absolute, document) == request(cmd, other, document),
        path_of(cmd) is Some ==> request(cmd, absolute, document)->Array_0 == request(
            cmd,
            other,
            document,
        )->Array_0.update(1, Tree::Text(absolute)),
{
    if path_of(cmd) is Some {
        assert(request(cmd, absolute, document)->Array_0 =~= request(
            cmd,
            other,
            document,
        )->Array_0.update(1, Tree::Text(absolute)));
    }
}

/// After its name and its path, a request holds the arguments of its command as they were given
/// and in the order in which they were given.
pub proof fn arguments_are_the_ones_given(
    path: String,
    name: String,
    message: String,
    texts: Vec<String>,
    document: String,
    absolute: Seq<char>,
    j: Tree,
)
    ensures
        ({
            let r = request((Command::Query { path, query: document }), absolute, j)->Array_0;
            r.len() == 3 && r[2] == j
        }),
        ({
            let r = request(
                (Command::Subscribe { path, name, query: document }),
                absolute,
                j,
            )->Array_0;
            r.len() == 4 && r[2] == Tree::Text(name@) && r[3] == j
        }),
        ({
            let r = request((Command::Trigger { path, spec: document }), absolute, j)->Array_0;
            r.len() == 3 && r[2] == j
        }),
        ({
            let r = request((Command::Unsubscribe { path, name }), absolute, j)->Array_0;
            r.len() == 3 && r[2] == Tree::Text(name@)
        }),
        ({
            let r = request((Command::StateEnter { path, name }), absolute, j)->Array_0;
            r.len() == 3 && r[2] == Tree::Text(name@)
        }),
        ({
            let r = request((Command::StateLeave { path, name }), absolute, j)->Array_0;
            r.len() == 3 && r[2] == Tree::Text(name@)
        }),
        ({
            let r = request((Command::TriggerDel { path, name }), absolute, j)->Array_0;
            r.len() == 3 && r[2] == Tree::Text(name@)
        }),
        ({
            let r = request((Command::Since { path, clock: name }), absolute, j)->Array_0;
            r.len() == 3 && r[2] == Tree::Text(name@)
        }),
        ({
            let r = request((Command::Log { level: name, message }), absolute, j)->Array_0;
            r.len() == 3 && r[1] == Tree::Text(name@) && r[2] == Tree::Text(message@)
        }),
        ({
            let r = request((Command::Find { path, patterns: texts }), absolute, j)->Array_0;
            r.len() == 2 + texts@.len() && forall|i: int|
                0 <= i < texts@.len() ==> r[2 + i] == Tree::Text((#[trigger] texts@[i])@)
        }),
{
}

/// A log level is sent where one was given, as it was given; the request that reads the level is
/// the name of the command alone.
pub proof fn log_level_is_sent_where_given(level: Option<String>, absolute: Seq<char>, j: Tree)
    ensures
        ({
            let r = request((Command::LogLevel { level }), absolute, j)->Array_0;
            let g = request((Command::GlobalLogLevel { level }), absolute, j)->Array_0;
            &&& level is None ==> r.len() == 1 && g.len() == 1
            &&& level matches Some(l) ==> r.len() == 2 && r[1] == Tree::Text(l@)
            &&& level matches Some(l) ==> g.len() == 2 && g[1] == Tree::Text(l@)
        }),
{
}

/// Numbers are sent as they were given. A timeout above the range of the protocol's integers is
/// sent as the integer of that range from which it differs by a multiple of 2^64.
pub proof fn numbers_are_the_ones_given(
    path: String,
    timeout_ms: u64,
    age: i64,
    absolute: Seq<char>,
    j: Tree,
)
    ensures
        ({
            let r = request((Command::DebugAgeout { path, age }), absolute, j)->Array_0;
            r.len() == 3 && r[2] == Tree::Int(age)
        }),
        ({
            let r = request((Command::FlushSubscriptions { path, timeout_ms }), absolute, j)->Array_0;
            &&& r.len() == 3
            &&& r[2] is Int
            &&& r[2]->Int_0 == timeout_ms || r[2]->Int_0 == timeout_ms - 0x1_0000_0000_0000_0000
        }),
{
}

/// A version request asks for what it was told to ask for: a lookup of `required` in its probe
/// finds the required capabilities where there are any, and nothing otherwise, and a lookup of
/// `optional` the optional ones, each whether or not there are any of the other kind. No other
/// key finds anything. Without capabilities there is no probe.
pub proof fn probe_asks_for_both_lists(
    required: Vec<String>,
    optional: Vec<String>,
    key: Seq<char>,
    absolute: Seq<char>,
    document: Tree,
)
    ensures
        ({
            let r = request((Command::Version { required, optional }), absolute, document)->Array_0;
            let some = required@.len() > 0 || optional@.len() > 0;
            &&& !some ==> r.len() == 1
            &&& some ==> r.len() == 2 && r[1] is Object && value::keys_distinct(r[1]->Object_0)
            &&& some && key == "required"@ ==> lists(value::lookup(r[1]->Object_0, key), required@)
            &&& some && key == "optional"@ ==> lists(value::lookup(r[1]->Object_0, key), optional@)
            &&& some && key != "required"@ && key != "optional"@ ==> value::lookup(
                r[1]->Object_0,
                key,
            ) is None
            &&& required@.len() > 0 ==> r[1]->Object_0[0].0 == "required"@
        }),
{
    reveal_strlit("required");
    reveal_strlit("optional");
    assert("required"@[0] != "optional"@[0]);
    if required@.len() > 0 || optional@.len() > 0 {
        let cmd = Command::Version { required, optional };
        let r = request(cmd, absolute, document)->Array_0;
        let e = r[1]->Object_0;
        let last = e.len() - 1;
        assert(e[last].0 == "optional"@ || e[last].0 == "required"@);
        if required@.len() > 0 {
            assert(value::has_key(e, "required"@)) by {
                assert(e[0].0 == "required"@);
            }
        }
        if optional@.len() > 0 {
            assert(value::has_key(e, "optional"@)) by {
                assert(e[last].0 == "optional"@);
            }
        }
    }
}

/// `found` is an array of `texts`, in their order; nothing where there are none.
pub open spec fn lists(found: Option<Tree>, texts: Seq<String>) -> bool {
    if texts.len() == 0 {
        found is None
    } else {
        &&& found is Some
        &&& found->0 is Array
        &&& found->0->Array_0.len() == texts.len()
        &&& forall|i: int|
            0 <= i < texts.len() ==> found->0->Array_0[i] == Tree::Text((#[trigger] texts[i])@)
    }
}

/// The place of the command in the list of requests.
pub open spec fn kind(cmd: Command) -> int {
    match cmd {
        Command::GetSockname => 0,
        Command::GetPid => 1,
        Command::Version { .. } => 2,
        Command::ListCapabilities => 3,
        Command::WatchProject { .. } => 4,
        Command::Watch { .. } => 5,
        Command::WatchList => 6,
        Command::WatchDel { .. } => 7,
        Command::WatchDelAll => 8,
        Command::Clock { .. } => 9,
        Command::Query { .. } => 10,
        Command::Subscribe { .. } => 11,
        Command::Unsubscribe { .. } => 12,
        Command::FlushSubscriptions { .. } => 13,
        Command::StateEnter { .. } => 14,
        Command::StateLeave { .. } => 15,
        Command::GetConfig { .. } => 16,
        Command::LogLevel { .. } => 17,
        Command::Log { .. } => 18,
        Command::ShutdownServer => 19,
        Command::DebugRecrawl { .. } => 20,
        Command::DebugAgeout { .. } => 21,
        Command::DebugShowCursors { .. } => 22,
        Command::DebugPollForSettle { .. } => 23,
        Command::Find { .. } => 24,
        Command::Since { .. } => 25,
        Command::Trigger { .. } => 26,
        Command::TriggerList { .. } => 27,
        Command::TriggerDel { .. } => 28,
        Command::GetLog => 29,
        Command::GlobalLogLevel { .. } => 30,
        Command::DebugContenthash { .. } => 31,
        Command::DebugStatus => 32,
        Command::DebugRootStatus { .. } => 33,
        Command::DebugWatcherInfo { .. } => 34,
        Command::DebugWatcherInfoClear => 35,
        Command::DebugGetAssertedStates { .. } => 36,
        Command::DebugGetSubscriptions { .. } => 37,
        Command::DebugKqueueAndFsEventsRecrawl { .. } => 38,
        Command::DebugFsEventsInjectDrop { .. } => 39,
        Command::DebugSetParallelCrawl => 40,
        Command::DebugSetSubscriptionsPaused => 41,
        Command::DebugSymlinkTargetCache => 42,
        _ => -1,
    }
}

/// The place of the command whose name has this length and these characters at its ends.
spec fn kind_of_ends(len: nat, first: char, last: char) -> int {
    if len == 12 && first == 'g' && last == 'e' {
        0
    } else if len == 7 && first == 'g' && last == 'd' {
        1
    } else if len == 7 && first == 'v' && last == 'n' {
        2
    } else if len == 17 && first == 'l' && last == 's' {
        3
    } else if len == 13 && first == 'w' && last == 't' {
        4
    } else if len == 5 && first == 'w' && last == 'h' {
        5
    } else if len == 10 && first == 'w' && last == 't' {
        6
    } else if len == 9 && first == 'w' && last == 'l' {
        7
    } else if len == 13 && first == 'w' && last == 'l' {
        8
    } else if len == 5 && first == 'c' && last == 'k' {
        9
    } else if len == 5 && first == 'q' && last == 'y' {
        10
    } else if len == 9 && first == 's' && last == 'e' {
        11
    } else if len == 11 && first == 'u' && last == 'e' {
        12
    } else if len == 19 && first == 'f' && last == 's' {
        13
    } else if len == 11 && first == 's' && last == 'r' {
        14
    } else if len == 11 && first == 's' && last == 'e' {
        15
    } else if len == 10 && first == 'g' && last == 'g' {
        16
    } else if len == 9 && first == 'l' && last == 'l' {
        17
    } else if len == 3 && first == 'l' && last == 'g' {
        18
    } else if len == 15 && first == 's' && last == 'r' {
        19
    } else if len == 13 && first == 'd' && last == 'l' {
        20
    } else if len == 12 && first == 'd' && last == 't' {
        21
    } else if len == 18 && first == 'd' && last == 's' {
        22
    } else if len == 21 && first == 'd' && last == 'e' {
        23
    } else if len == 4 && first == 'f' && last == 'd' {
        24
    } else if len == 5 && first == 's' && last == 'e' {
        25
    } else if len == 7 && first == 't' && last == 'r' {
        26
    } else if len == 12 && first == 't' && last == 't' {
        27
    } else if len == 11 && first == 't' && last == 'l' {
        28
    } else if len == 7 && first == 'g' && last == 'g' {
        29
    } else if len == 16 && first == 'g' && last == 'l' {
        30
    } else if len == 17 && first == 'd' && last == 'h' {
        31
    } else if len == 12 && first == 'd' && last == 's' {
        32
    } else if len == 17 && first == 'd' && last == 's' {
        33
    } else if len == 18 && first == 'd' && last == 'o' {
        34
    } else if len == 24 && first == 'd' && last == 'r' {
        35
    } else if len == 25 && first == 'd' && last == 's' {
        36
    } else if len == 23 && first == 'd' && last == 's' {
        37
    } else if len == 33 && first == 'd' && last == 'l' {
        38
    } else if len == 26 && first == 'd' && last == 'p' {
        39
    } else if len == 24 && first == 'd' && last == 'l' {
        40
    } else if len == 30 && first == 'd' && last == 'd' {
        41
    } else if len == 26 && first == 'd' && last == 'e' {
        42
    } else {
        -1
    }
}

proof fn ends_tell_the_kind(cmd: Command)
    requires
        is_request(cmd),
        !(cmd is Raw),
    ensures
        kind(cmd) == kind_of_ends(
            wire_name(cmd).len(),
            wire_name(cmd).first(),
            wire_name(cmd).last(),
        ),
{
    match cmd {
        Command::GetSockname => {
            reveal_strlit("get-sockname");
        },
        Command::GetPid => {
            reveal_strlit("get-pid");
        },
        Command::Version { .. } => {
            reveal_strlit("version");
        },
        Command::ListCapabilities => {
            reveal_strlit("list-capabilities");
        },
        Command::WatchProject { .. } => {
            reveal_strlit("watch-project");
        },
        Command::Watch { .. } => {
            reveal_strlit("watch");
        },
        Command::WatchList => {
            reveal_strlit("watch-list");
        },
        Command::WatchDel { .. } => {
            reveal_strlit("watch-del");
        },
        Command::WatchDelAll => {
            reveal_strlit("watch-del-all");
        },
        Command::Clock { .. } => {
            reveal_strlit("clock");
        },
        Command::Query { .. } => {
            reveal_strlit("query");
        },
        Command::Subscribe { .. } => {
            reveal_strlit("subscribe");
        },
        Command::Unsubscribe { .. } => {
            reveal_strlit("unsubscribe");
        },
        Command::FlushSubscriptions { .. } => {
            reveal_strlit("flush-subscriptions");
        },
        Command::StateEnter { .. } => {
            reveal_strlit("state-enter");
        },
        Command::StateLeave { .. } => {
            reveal_strlit("state-leave");
        },
        Command::GetConfig { .. } => {
            reveal_strlit("get-config");
        },
        Command::LogLevel { .. } => {
            reveal_strlit("log-level");
        },
        Command::Log { .. } => {
            reveal_strlit("log");
        },
        Command::ShutdownServer => {
            reveal_strlit("shutdown-server");
        },
        Command::DebugRecrawl { .. } => {
            reveal_strlit("debug-recrawl");
        },
        Command::DebugAgeout { .. } => {
            reveal_strlit("debug-ageout");
        },
        Command::DebugShowCursors { .. } => {
            reveal_strlit("debug-show-cursors");
        },
        Command::DebugPollForSettle { .. } => {
            reveal_strlit("debug-poll-for-settle");
        },
        Command::Find { .. } => {
            reveal_strlit("find");
        },
        Command::Since { .. } => {
            reveal_strlit("since");
        },
        Command::Trigger { .. } => {
            reveal_strlit("trigger");
        },
        Command::TriggerList { .. } => {
            reveal_strlit("trigger-list");
        },
        Command::TriggerDel { .. } => {
            reveal_strlit("trigger-del");
        },
        Command::GetLog => {
            reveal_strlit("get-log");
        },
        Command::GlobalLogLevel { .. } => {
            reveal_strlit("global-log-level");
        },
        Command::DebugContenthash { .. } => {
            reveal_strlit("debug-contenthash");
        },
        Command::DebugStatus => {
            reveal_strlit("debug-status");
        },
        Command::DebugRootStatus { .. } => {
            reveal_strlit("debug-root-status");
        },
        Command::DebugWatcherInfo { .. } => {
            reveal_strlit("debug-watcher-info");
        },
        Command::DebugWatcherInfoClear => {
            reveal_strlit("debug-watcher-info-clear");
        },
        Command::DebugGetAssertedStates { .. } => {
            reveal_strlit("debug-get-asserted-states");
        },
        Command::DebugGetSubscriptions { .. } => {
            reveal_strlit("debug-get-subscriptions");
        },
        Command::DebugKqueueAndFsEventsRecrawl { .. } => {
            reveal_strlit("debug-kqueue-and-fsevents-recrawl");
        },
        Command::DebugFsEventsInjectDrop { .. } => {
            reveal_strlit("debug-fsevents-inject-drop");
        },
        Command::DebugSetParallelCrawl => {
            reveal_strlit("debug-set-parallel-crawl");
        },
        Command::DebugSetSubscriptionsPaused => {
            reveal_strlit("debug-set-subscriptions-paused");
        },
        Command::DebugSymlinkTargetCache => {
            reveal_strlit("debug-symlink-target-cache");
        },
        _ => {},
    }
}

/// The name of a command does not depend on its arguments, and is not empty.
pub proof fn names_do_not_depend_on_arguments(a: Command, b: Command)
    requires
        is_request(a),
        is_request(b),
        !(a is Raw),
        kind(a) == kind(b),
    ensures
        wire_name(a) == wire_name(b),
        wire_name(a).len() > 0,
{
    ends_tell_the_kind(a);
}

/// Different commands go by different names.
pub proof fn names_tell_commands_apart(a: Command, b: Command)
    requires
        is_request(a),
        is_request(b),
        !(a is Raw),
        !(b is Raw),
        kind(a) != kind(b),
    ensures
        wire_name(a) != wire_name(b),
{
    ends_tell_the_kind(a);
    ends_tell_the_kind(b);
}

} // verus!
