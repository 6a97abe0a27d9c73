use watchwoman::json::response_text;
use watchwoman::paths::Location;
use watchwoman::pdu::{assemble_pdu, build_pdu, document_argument, path_argument, status_pdu};
use watchwoman::{CliError, Command, Value};

fn p() -> String {
    "p".to_string()
}

fn s(t: &str) -> String {
    t.to_string()
}

fn here() -> Location {
    Location { canonical: None, cwd: "/w".to_string() }
}

fn sent(cmd: Command) -> String {
    let v = build_pdu(&cmd, &here()).unwrap();
    response_text(&v, true).trim_end().to_string()
}

#[test]
fn commands_without_arguments() {
    assert_eq!(sent(Command::GetSockname), "[\"get-sockname\"]");
    assert_eq!(sent(Command::GetPid), "[\"get-pid\"]");
    assert_eq!(sent(Command::ListCapabilities), "[\"list-capabilities\"]");
    assert_eq!(sent(Command::WatchList), "[\"watch-list\"]");
    assert_eq!(sent(Command::WatchDelAll), "[\"watch-del-all\"]");
    assert_eq!(sent(Command::ShutdownServer), "[\"shutdown-server\"]");
    assert_eq!(sent(Command::GetLog), "[\"get-log\"]");
    assert_eq!(sent(Command::DebugStatus), "[\"debug-status\"]");
    assert_eq!(sent(Command::DebugWatcherInfoClear), "[\"debug-watcher-info-clear\"]");
    assert_eq!(sent(Command::DebugSetParallelCrawl), "[\"debug-set-parallel-crawl\"]");
    assert_eq!(
        sent(Command::DebugSetSubscriptionsPaused),
        "[\"debug-set-subscriptions-paused\"]"
    );
    assert_eq!(sent(Command::DebugSymlinkTargetCache), "[\"debug-symlink-target-cache\"]");
}

#[test]
fn commands_about_a_path() {
    let cases = vec![
        (Command::WatchProject { path: p() }, "watch-project"),
        (Command::Watch { path: p() }, "watch"),
        (Command::WatchDel { path: p() }, "watch-del"),
        (Command::Clock { path: p() }, "clock"),
        (Command::GetConfig { path: p() }, "get-config"),
        (Command::DebugRecrawl { path: p() }, "debug-recrawl"),
        (Command::DebugShowCursors { path: p() }, "debug-show-cursors"),
        (Command::DebugPollForSettle { path: p() }, "debug-poll-for-settle"),
        (Command::TriggerList { path: p() }, "trigger-list"),
        (Command::DebugContenthash { path: p() }, "debug-contenthash"),
        (Command::DebugRootStatus { path: p() }, "debug-root-status"),
        (Command::DebugWatcherInfo { path: p() }, "debug-watcher-info"),
        (Command::DebugGetAssertedStates { path: p() }, "debug-get-asserted-states"),
        (Command::DebugGetSubscriptions { path: p() }, "debug-get-subscriptions"),
        (
            Command::DebugKqueueAndFsEventsRecrawl { path: p() },
            "debug-kqueue-and-fsevents-recrawl",
        ),
        (Command::DebugFsEventsInjectDrop { path: p() }, "debug-fsevents-inject-drop"),
    ];
    for (cmd, name) in cases {
        assert_eq!(path_argument(&cmd), Some("p"));
        assert_eq!(sent(cmd), format!("[\"{name}\",\"/w/p\"]"));
    }
}

#[test]
fn commands_with_more_arguments() {
    assert_eq!(
        sent(Command::Unsubscribe { path: p(), name: s("n") }),
        "[\"unsubscribe\",\"/w/p\",\"n\"]"
    );
    assert_eq!(
        sent(Command::FlushSubscriptions { path: p(), timeout_ms: 5000 }),
        "[\"flush-subscriptions\",\"/w/p\",5000]"
    );
    assert_eq!(
        sent(Command::FlushSubscriptions { path: p(), timeout_ms: u64::MAX }),
        "[\"flush-subscriptions\",\"/w/p\",-1]"
    );
    assert_eq!(
        sent(Command::FlushSubscriptions { path: p(), timeout_ms: 1 << 63 }),
        "[\"flush-subscriptions\",\"/w/p\",-9223372036854775808]"
    );
    assert_eq!(
        sent(Command::StateEnter { path: p(), name: s("n") }),
        "[\"state-enter\",\"/w/p\",\"n\"]"
    );
    assert_eq!(
        sent(Command::StateLeave { path: p(), name: s("n") }),
        "[\"state-leave\",\"/w/p\",\"n\"]"
    );
    assert_eq!(sent(Command::LogLevel { level: None }), "[\"log-level\"]");
    assert_eq!(sent(Command::LogLevel { level: Some(s("debug")) }), "[\"log-level\",\"debug\"]");
    assert_eq!(sent(Command::GlobalLogLevel { level: None }), "[\"global-log-level\"]");
    assert_eq!(
        sent(Command::GlobalLogLevel { level: Some(s("off")) }),
        "[\"global-log-level\",\"off\"]"
    );
    assert_eq!(
        sent(Command::Log { level: s("error"), message: s("hi") }),
        "[\"log\",\"error\",\"hi\"]"
    );
    assert_eq!(
        sent(Command::DebugAgeout { path: p(), age: -3 }),
        "[\"debug-ageout\",\"/w/p\",-3]"
    );
    assert_eq!(
        sent(Command::Find { path: p(), patterns: vec![s("*.c"), s("*.h")] }),
        "[\"find\",\"/w/p\",\"*.c\",\"*.h\"]"
    );
    assert_eq!(sent(Command::Find { path: p(), patterns: vec![] }), "[\"find\",\"/w/p\"]");
    assert_eq!(
        sent(Command::Since { path: p(), clock: s("c:1:2") }),
        "[\"since\",\"/w/p\",\"c:1:2\"]"
    );
    assert_eq!(
        sent(Command::TriggerDel { path: p(), name: s("t") }),
        "[\"trigger-del\",\"/w/p\",\"t\"]"
    );
}

#[test]
fn version_probes() {
    let none: Vec<String> = vec![];
    assert_eq!(
        sent(Command::Version { required: none.clone(), optional: none.clone() }),
        "[\"version\"]"
    );
    assert_eq!(
        sent(Command::Version { required: vec![s("a"), s("b")], optional: none.clone() }),
        "[\"version\",{\"required\":[\"a\",\"b\"]}]"
    );
    assert_eq!(
        sent(Command::Version { required: none, optional: vec![s("c")] }),
        "[\"version\",{\"optional\":[\"c\"]}]"
    );
    let both = Command::Version { required: vec![s("a")], optional: vec![s("c")] };
    let v = build_pdu(&both, &here()).unwrap();
    let probe = v.as_array().unwrap()[1].as_object().unwrap();
    assert_eq!(probe.get_index(0).unwrap().0, "required");
    assert_eq!(probe.get_index(1).unwrap().0, "optional");
    assert_eq!(probe.len(), 2);
}

#[test]
fn commands_with_a_document() {
    assert_eq!(
        sent(Command::Query { path: p(), query: s("{\"glob\":[\"*\"]}") }),
        "[\"query\",\"/w/p\",{\"glob\":[\"*\"]}]"
    );
    assert_eq!(
        sent(Command::Subscribe { path: p(), name: s("n"), query: s("{}") }),
        "[\"subscribe\",\"/w/p\",\"n\",{}]"
    );
    assert_eq!(
        sent(Command::Trigger { path: p(), spec: s("{\"name\":\"t\"}") }),
        "[\"trigger\",\"/w/p\",{\"name\":\"t\"}]"
    );
    assert_eq!(sent(Command::Raw { pdu: s("[\"get-pid\", 1]") }), "[\"get-pid\",1]");
    assert_eq!(sent(Command::Raw { pdu: s("7") }), "7");
}

#[test]
fn bad_documents_are_named() {
    let cases = vec![
        (Command::Query { path: p(), query: s("x") }, "parsing query JSON"),
        (Command::Subscribe { path: p(), name: s("n"), query: s("x") }, "parsing subscribe JSON"),
        (Command::Trigger { path: p(), spec: s("x") }, "parsing trigger spec JSON"),
        (Command::Raw { pdu: s("x") }, "parsing raw PDU JSON"),
    ];
    for (cmd, message) in cases {
        assert_eq!(document_argument(&cmd).unwrap().0, "x");
        match build_pdu(&cmd, &here()) {
            Err(CliError::Json { context, cause }) => {
                assert_eq!(context, message);
                assert_eq!(cause, "expected value at line 1 column 1");
            }
            other => panic!("{other:?}"),
        }
    }
    assert!(document_argument(&Command::GetPid).is_none());
    assert!(path_argument(&Command::GetPid).is_none());
}

#[test]
fn the_canonical_path_is_sent() {
    let at = Location { canonical: Some(s("/real")), cwd: s("/w") };
    let v = build_pdu(&Command::Watch { path: p() }, &at).unwrap();
    assert_eq!(response_text(&v, true), "[\"watch\",\"/real\"]\n");
    let v = build_pdu(&Command::Watch { path: s("/abs") }, &here()).unwrap();
    assert_eq!(response_text(&v, true), "[\"watch\",\"/abs\"]\n");
}

#[test]
fn requests_are_put_together() {
    let cmd = Command::Subscribe { path: p(), name: s("n"), query: s("ignored") };
    assert_eq!(
        assemble_pdu(&cmd, "/x", Value::Int(5)),
        Value::Array(vec![
            Value::String(s("subscribe")),
            Value::String(s("/x")),
            Value::String(s("n")),
            Value::Int(5),
        ])
    );
    assert_eq!(assemble_pdu(&Command::Raw { pdu: s("") }, "/x", Value::Int(5)), Value::Int(5));
}

#[test]
fn a_raw_document_is_sent_as_it_is() {
    for doc in ["[\"query\",{\"a\":[1,-2,0.5]}]", "{\"b\":null}", "9223372036854775807"] {
        let v = build_pdu(&Command::Raw { pdu: s(doc) }, &here()).unwrap();
        assert_eq!(response_text(&v, true), format!("{doc}\n"));
    }
}

#[test]
fn the_status_request() {
    assert_eq!(response_text(&status_pdu(), true), "[\"status\"]\n");
}

#[test]
fn names_differ() {
    let mut names: Vec<String> = vec![
        Command::GetPid,
        Command::GetLog,
        Command::WatchList,
        Command::Watch { path: p() },
        Command::Clock { path: p() },
        Command::LogLevel { level: None },
        Command::GlobalLogLevel { level: None },
        Command::DebugWatcherInfo { path: p() },
        Command::DebugWatcherInfoClear,
    ]
    .iter()
    .map(|c| {
        let v = build_pdu(c, &here()).unwrap();
        v.as_array().unwrap()[0].as_str().unwrap().to_string()
    })
    .collect();
    names.sort();
    names.dedup();
    assert_eq!(names.len(), 9);
}
