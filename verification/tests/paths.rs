use watchwoman::paths::{absolutise, daemon_log, join, state_dir, Location};
use watchwoman::{watchwoman_state_dir, CliError};

fn at(canonical: Option<&str>, cwd: &str) -> Location {
    Location { canonical: canonical.map(|c| c.to_string()), cwd: cwd.to_string() }
}

#[test]
fn the_canonical_form_wins() {
    assert_eq!(absolutise("src", &at(Some("/real/src"), "/home/me")), "/real/src");
    assert_eq!(absolutise("/link", &at(Some("/real"), "/home/me")), "/real");
}

#[test]
fn a_rooted_path_stays() {
    assert_eq!(absolutise("/no/such", &at(None, "/home/me")), "/no/such");
}

#[test]
fn a_relative_path_goes_below_the_current_directory() {
    assert_eq!(absolutise("no/such", &at(None, "/home/me")), "/home/me/no/such");
    assert_eq!(absolutise("no/such", &at(None, "/")), "/no/such");
    assert_eq!(absolutise("no/such", &at(None, "")), "no/such");
    assert_eq!(absolutise("", &at(None, "/home/me")), "/home/me/");
}

#[test]
fn joining_agrees_with_std() {
    for base in ["", "/", "/a", "/a/", "a", "a/b//"] {
        for path in ["", "x", "x/y", "./x", "../x"] {
            let expected = std::path::Path::new(base).join(path);
            assert_eq!(join(base, path), expected.to_string_lossy());
        }
    }
}

/// The path up to the last dot of its file name, and the extension of a log.
fn with_log(path: &str) -> String {
    let name = path.rfind('/').map_or(0, |i| i + 1);
    let end = path[name..].rfind('.').map_or(path.len(), |i| name + i);
    format!("{}.log", &path[..end])
}

#[test]
fn the_log_lies_beside_the_socket() {
    assert_eq!(daemon_log("/run/ww/sock"), "/run/ww/sock.log");
    assert_eq!(daemon_log("/run/ww/daemon.sock"), "/run/ww/daemon.log");
    assert_eq!(daemon_log("/run/w.d/sock"), "/run/w.d/sock.log");
    for dir in ["", "/", "a/", "/a//", "./", "../x.y/", "a/./b//", ".h/"] {
        for name in ["s", "sock", "s.t", "a.b.c", "s.", "s..", "s..t", "é.ü", "a b"] {
            let path = format!("{dir}{name}");
            assert_eq!(daemon_log(&path), with_log(&path));
        }
    }
    for path in ["", "/", "..", ".", ".hidden", "a/", "a/.."] {
        let expected = std::path::Path::new(path).with_extension("log");
        assert_eq!(daemon_log(path), expected.to_string_lossy());
    }
}

#[test]
fn an_absolute_path_is_stable() {
    let once = absolutise("x/y", &at(None, "/home/me"));
    assert_eq!(absolutise(&once, &at(None, "/home/me")), once);
}

#[test]
fn the_state_directory_holds_the_socket() {
    assert_eq!(watchwoman_state_dir("/run/user/watchwoman/sock").unwrap(), "/run/user/watchwoman");
    assert_eq!(watchwoman_state_dir("sock").unwrap(), "");
    assert!(matches!(watchwoman_state_dir("/"), Err(CliError::NoStateDir)));
    assert_eq!(state_dir(Some("/x".to_string())).unwrap(), "/x");
    assert_eq!(state_dir(None).unwrap_err().message(), "resolving state dir");
}
