use watchwoman::agent::{
    agent_log, agent_plist_path, agent_socket, candidates, dev_build_warning, first_existing, installed_text, is_dev_build,
    launch_domain, launch_service, plist_body, uninstalled_text, AGENT_LABEL,
};

#[test]
fn the_property_list_lies_in_the_home_directory() {
    assert_eq!(AGENT_LABEL, "cc.blit.watchwoman");
    assert_eq!(
        agent_plist_path(Some("/Users/me")),
        "/Users/me/Library/LaunchAgents/cc.blit.watchwoman.plist"
    );
    assert_eq!(agent_plist_path(None), "/tmp/Library/LaunchAgents/cc.blit.watchwoman.plist");
}

#[test]
fn the_property_list_names_program_socket_and_log() {
    let expected = r#"<?xml version="1.0" encoding="UTF-8"?>
<!DOCTYPE plist PUBLIC "-//Apple//DTD PLIST 1.0//EN" "http://www.apple.com/DTDs/PropertyList-1.0.dtd">
<plist version="1.0">
<dict>
    <key>Label</key><string>cc.blit.watchwoman</string>
    <key>ProgramArguments</key>
    <array>
        <string>/bin/ww</string>
        <string>--sockname</string>
        <string>/s/sock</string>
        <string>--foreground-daemon</string>
    </array>
    <key>KeepAlive</key>
    <dict><key>Crashed</key><true/></dict>
    <key>RunAtLoad</key><true/>
    <key>StandardErrorPath</key><string>/s/log</string>
    <key>StandardOutPath</key><string>/s/log</string>
    <key>ProcessType</key><string>Interactive</string>
</dict>
</plist>
"#;
    assert_eq!(plist_body("/bin/ww", "/s/sock", "/s/log"), expected);
}

#[test]
fn socket_and_log_lie_in_the_state_directory() {
    assert_eq!(agent_socket("/Users/me/state"), "/Users/me/state/sock");
    assert_eq!(agent_log("/Users/me/state"), "/Users/me/state/watchwoman.log");
    assert_eq!(agent_socket("/"), "/sock");
    assert_eq!(agent_log(""), "watchwoman.log");
}

#[test]
fn launchd_names() {
    assert_eq!(launch_domain(501), "gui/501");
    assert_eq!(launch_service(501), "gui/501/cc.blit.watchwoman");
}

#[test]
fn messages() {
    assert_eq!(
        installed_text("/p", "/s", "/l"),
        "Installed LaunchAgent cc.blit.watchwoman.\n  plist:  /p\n  socket: /s\n  log:    /l"
    );
    assert_eq!(uninstalled_text("/p", true), "Removed LaunchAgent cc.blit.watchwoman (/p)");
    assert_eq!(uninstalled_text("/p", false), "No LaunchAgent installed for cc.blit.watchwoman.");
    assert_eq!(
        dev_build_warning("/x/target/debug/ww"),
        "warning: no stable watchwoman found on $PATH; using the running\n  dev binary \
         /x/target/debug/ww.  Re-run `watchwoman install-agent` after a real\n  install \
         (brew / mise / cargo) to stabilise the plist."
    );
}

#[test]
fn stable_places_come_in_order() {
    let all: Vec<(bool, &str)> = candidates(true).iter().map(|p| (p.under_home, p.path)).collect();
    assert_eq!(
        all,
        vec![
            (true, ".local/share/mise/shims/watchman"),
            (true, ".local/share/mise/shims/watchwoman"),
            (false, "/opt/homebrew/bin/watchman"),
            (false, "/opt/homebrew/bin/watchwoman"),
            (false, "/usr/local/bin/watchman"),
            (false, "/usr/local/bin/watchwoman"),
            (true, ".cargo/bin/watchman"),
            (true, ".cargo/bin/watchwoman"),
        ]
    );
    let rest: Vec<(bool, &str)> =
        candidates(false).iter().map(|p| (p.under_home, p.path)).collect();
    assert_eq!(rest, all[2..6].to_vec());
}

#[test]
fn the_first_existing_place_is_picked() {
    assert_eq!(first_existing(&vec![false, true, true]), Some(1));
    assert_eq!(first_existing(&vec![false, false]), None);
    assert_eq!(first_existing(&vec![]), None);
}

#[test]
fn build_directories_are_recognised() {
    assert!(is_dev_build("/src/target/release/watchwoman"));
    assert!(is_dev_build("/src/target/debug/watchwoman"));
    assert!(!is_dev_build("/usr/bin/watchwoman"));
    assert!(!is_dev_build("/src/target/other/watchwoman"));
}
