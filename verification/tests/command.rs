use watchwoman::command::{log_file, log_level_name, pidfile_to_write, plan, Plan};
use watchwoman::{Cli, Command, Encoding, Shell};

fn cli(command: Option<Command>) -> Cli {
    Cli {
        sockname: None,
        output_encoding: Encoding::Json,
        server_encoding: Encoding::Bser2,
        no_pretty: false,
        no_spawn: false,
        logfile: None,
        log_level: None,
        pidfile: None,
        json_command: false,
        persistent: false,
        command,
    }
}

#[test]
fn each_command_has_its_plan() {
    assert_eq!(plan(&cli(None)), Plan::Help);
    assert_eq!(plan(&cli(Some(Command::ForegroundDaemon))), Plan::Daemon);
    assert_eq!(
        plan(&cli(Some(Command::Completion { shell: Shell::Fish }))),
        Plan::Completion(Shell::Fish)
    );
    assert_eq!(plan(&cli(Some(Command::InstallAgent))), Plan::InstallAgent);
    assert_eq!(plan(&cli(Some(Command::UninstallAgent))), Plan::UninstallAgent);
    assert_eq!(
        plan(&cli(Some(Command::Status { json: true }))),
        Plan::Status { json: true, no_pretty: false }
    );
    assert_eq!(
        plan(&cli(Some(Command::Status { json: false }))),
        Plan::Status { json: false, no_pretty: false }
    );
    let mut compact = cli(Some(Command::Status { json: true }));
    compact.no_pretty = true;
    assert_eq!(plan(&compact), Plan::Status { json: true, no_pretty: true });
    assert_eq!(plan(&cli(Some(Command::GetPid))), Plan::Client);
    assert_eq!(plan(&cli(Some(Command::Raw { pdu: "[]".to_string() }))), Plan::Client);
}

#[test]
fn a_pdu_on_stdin_goes_first() {
    let mut c = cli(Some(Command::GetPid));
    c.json_command = true;
    assert_eq!(plan(&c), Plan::StdinJson);
    c.command = None;
    assert_eq!(plan(&c), Plan::StdinJson);
}

#[test]
fn only_the_daemon_writes_a_pidfile() {
    let mut c = cli(Some(Command::ForegroundDaemon));
    assert_eq!(pidfile_to_write(&c), None);
    c.pidfile = Some("/run/pid".to_string());
    assert_eq!(pidfile_to_write(&c), Some("/run/pid"));
    c.command = Some(Command::GetPid);
    assert_eq!(pidfile_to_write(&c), None);
    c.command = None;
    assert_eq!(pidfile_to_write(&c), None);
}

#[test]
fn log_levels_by_number() {
    assert_eq!(log_level_name(None), "warn");
    assert_eq!(log_level_name(Some(0)), "off");
    assert_eq!(log_level_name(Some(1)), "warn");
    assert_eq!(log_level_name(Some(2)), "debug");
    assert_eq!(log_level_name(Some(3)), "trace");
    assert_eq!(log_level_name(Some(255)), "trace");
}

#[test]
fn a_dash_is_no_log_file() {
    assert_eq!(log_file(None), None);
    assert_eq!(log_file(Some("-")), None);
    assert_eq!(log_file(Some("--")), Some("--"));
    assert_eq!(log_file(Some("")), Some(""));
    assert_eq!(log_file(Some("/var/log/ww")), Some("/var/log/ww"));
}
