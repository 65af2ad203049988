use eltor_backend::eltor::{
    activation_started_message, auth_accepted, auth_command, cleanup_failure_warns, control_password_var,
    deactivation_message, dev_bin_candidate, eltor_data_dir, get_pid_file_path, get_tor_control_password,
    invalid_mode_message, last_log_lines, logs_response, parse_pid, pid_from_file, plan_activation, poll_outcome,
    recent_log_path, shutdown_command, stale_data_files, status_from_pid_checks, stream_log_path,
    tauri_activation_paths, EltorMode, PollOutcome,
};
use eltor_backend::paths::PathConfig;

fn web() -> PathConfig {
    PathConfig { bin_dir: "/srv/bin".to_string(), data_dir: "/srv/bin/data".to_string(), app_data_dir: None }
}

fn desktop() -> PathConfig {
    PathConfig {
        bin_dir: "/app/res".to_string(),
        data_dir: "/home/u/eltor".to_string(),
        app_data_dir: Some("/home/u/eltor".to_string()),
    }
}

#[test]
fn modes_parse_in_any_case() {
    assert_eq!(EltorMode::from_str("Relay").unwrap(), EltorMode::Relay);
    assert_eq!(EltorMode::from_str("BOTH").unwrap(), EltorMode::Both);
    assert_eq!(EltorMode::from_str("client").unwrap(), EltorMode::Client);
    assert_eq!(EltorMode::from_str("exit").unwrap_err(), "Invalid mode: exit");
    assert_eq!(EltorMode::Both.to_string(), "both");
    assert_eq!(EltorMode::Client.get_torrc_file(), "torrc");
    assert_eq!(EltorMode::Both.get_torrc_file(), "torrc.relay");
}

#[test]
fn control_port_from_torrc() {
    assert_eq!(EltorMode::Client.get_control_port(&Ok("ControlPort 127.0.0.1:9051\n".to_string())), "9051");
    assert_eq!(EltorMode::Relay.get_control_port(&Ok("ControlPort auto\n".to_string())), "auto");
    assert_eq!(EltorMode::Relay.get_control_port(&Ok("SocksPort 1\n".to_string())), "7781");
    assert_eq!(EltorMode::Client.get_control_port(&Err("missing".to_string())), "9992");
}

#[test]
fn control_password() {
    assert_eq!(control_password_var(EltorMode::Client), "APP_ELTOR_TOR_CONTROL_PASSWORD");
    assert_eq!(control_password_var(EltorMode::Both), "APP_ELTOR_TOR_RELAY_CONTROL_PASSWORD");
    assert_eq!(get_tor_control_password(&None), "password1234_");
    assert_eq!(get_tor_control_password(&Some("pw".to_string())), "pw");
}

#[test]
fn file_locations_follow_the_layout() {
    assert_eq!(get_pid_file_path(EltorMode::Client, &web()), "/srv/bin/data/eltord-client.pid");
    assert_eq!(get_pid_file_path(EltorMode::Both, &desktop()), "/home/u/eltor/eltord-relay.pid");
    assert_eq!(eltor_data_dir(&desktop()), "/home/u/eltor");
    assert_eq!(stream_log_path(&web(), "relay"), "/srv/bin/data/eltor-relay.log");
    assert_eq!(stream_log_path(&desktop(), "client"), "/home/u/eltor/eltor.log");
    assert_eq!(recent_log_path(&desktop(), "relay"), "/app/res/data/eltor-relay.log");
}

#[test]
fn activation_plan_with_logging() {
    let plan = plan_activation("relay", true, &desktop(), "pw").unwrap();
    assert_eq!(plan.mode, EltorMode::Relay);
    assert_eq!(plan.program, "/app/res/eltord");
    assert_eq!(
        plan.args,
        vec!["relay", "-f", "/home/u/eltor/torrc.relay", "-p", "pw", "-l", "/home/u/eltor/eltor.log", "-k"]
    );
    assert_eq!(plan.working_dir, "/app/res");
    assert_eq!(plan.pid_file, "/home/u/eltor/eltord-relay.pid");
    let plan = plan_activation("CLIENT", false, &web(), "x").unwrap();
    assert_eq!(plan.args, vec!["client", "-f", "/srv/bin/data/torrc", "-p", "x"]);
    assert_eq!(plan_activation("bogus", false, &web(), "x").unwrap_err(), "Invalid mode: bogus");
}

#[test]
fn desktop_activation_paths() {
    let c = tauri_activation_paths("/appdata", &None, &Some("/dev/bin".to_string()));
    assert_eq!(c.bin_dir, "/dev/bin");
    assert_eq!(c.data_dir, "/appdata");
    let c = tauri_activation_paths("/appdata", &Some("/res".to_string()), &Some("/dev/bin".to_string()));
    assert_eq!(c.bin_dir, "/res");
    let c = tauri_activation_paths("/appdata", &None, &None);
    assert_eq!(c.bin_dir, "/appdata");
    assert_eq!(dev_bin_candidate("/repo/frontend/src-tauri"), "/repo/frontend/src-tauri/../../backend/bin");
}

#[test]
fn pid_files_are_read() {
    assert_eq!(parse_pid(" 4321\n"), Some(4321));
    assert_eq!(parse_pid("x"), None);
    assert_eq!(pid_from_file(&Ok("77".to_string()), "/p"), Ok(77));
    assert_eq!(pid_from_file(&Ok("seven".to_string()), "/p").unwrap_err(), "Invalid PID in file \"/p\"");
    assert_eq!(
        pid_from_file(&Err("no".to_string()), "/p").unwrap_err(),
        "No PID file found at \"/p\" - process may not be running"
    );
}

#[test]
fn deactivation_texts() {
    assert_eq!(deactivation_message(EltorMode::Client, true), "Eltord client deactivated gracefully");
    assert_eq!(deactivation_message(EltorMode::Relay, false), "Eltord relay deactivated (force killed)");
    assert_eq!(invalid_mode_message("x"), "Invalid eltor mode: x");
    assert_eq!(auth_command("p\"w"), "AUTHENTICATE \"p\"w\"\r\n");
    assert_eq!(shutdown_command(), "SIGNAL SHUTDOWN\r\n");
    assert!(auth_accepted("250 OK\r\n"));
    assert!(!auth_accepted("515 Authentication failed"));
    assert!(!cleanup_failure_warns("No PID file found at \"/x\""));
    assert!(!cleanup_failure_warns("process not running"));
    assert!(cleanup_failure_warns("Failed to kill process 3: denied"));
    assert_eq!(activation_started_message("relay"), "relay activation started");
}

#[test]
fn polling_gives_up_after_forty_checks() {
    assert_eq!(poll_outcome(0, false), PollOutcome::Exited);
    assert_eq!(poll_outcome(0, true), PollOutcome::KeepWaiting);
    assert_eq!(poll_outcome(38, true), PollOutcome::KeepWaiting);
    assert_eq!(poll_outcome(39, true), PollOutcome::ForceKill);
}

#[test]
fn status_runs_when_either_runs() {
    let s = status_from_pid_checks(false, true);
    assert!(s.running && !s.client_running && s.relay_running);
    assert!(!status_from_pid_checks(false, false).running);
}

#[test]
fn stale_files_cover_both_tor_directories() {
    let files = stale_data_files(&web());
    assert_eq!(files.len(), 3 + 2 * 21);
    assert_eq!(files[0], "/srv/bin/data/eltor.log");
    assert_eq!(files[2], "/srv/bin/data/payments_received.json");
    assert_eq!(files[3], "/srv/bin/data/tor_data/client/debug.log");
    assert_eq!(files[23], "/srv/bin/data/tor_data/client/v3-status-votes");
    assert_eq!(files[24], "/srv/bin/data/tor_data/relay/debug.log");
}

#[test]
fn recent_lines() {
    let content: String = (1..=105).map(|i| format!("line{}\n", i)).collect();
    let last = last_log_lines(&content);
    assert_eq!(last.len(), 100);
    assert_eq!(last[0], "line6");
    assert_eq!(last[99], "line105");
    let r = logs_response(&Ok(content));
    assert_eq!(r.logs[0], "line105");
    assert_eq!(r.logs[99], "line6");
    assert!(logs_response(&Err("none".to_string())).logs.is_empty());
    assert_eq!(last_log_lines("a\r\nb"), vec!["a".to_string(), "b".to_string()]);
}

#[test]
fn pid_file_messages_name_the_path_as_debug_does() {
    for p in ["/d/\"x\".pid", "C:\\eltor\\client.pid", "/d/a\tb\nc\u{1}\u{7f}\u{85}é.pid", "\"", "/plain/path"] {
        let shown = format!("{:?}", std::path::Path::new(p));
        assert_eq!(
            pid_from_file(&Err("no".to_string()), p).unwrap_err(),
            format!("No PID file found at {} - process may not be running", shown)
        );
        assert_eq!(pid_from_file(&Ok("x".to_string()), p).unwrap_err(), format!("Invalid PID in file {}", shown));
    }
}

#[test]
fn mode_names_read_back_in_any_case() {
    for m in [EltorMode::Client, EltorMode::Relay, EltorMode::Both] {
        assert_eq!(EltorMode::from_str(m.to_string()).unwrap(), m);
        assert_eq!(EltorMode::from_str(&m.to_string().to_uppercase()).unwrap(), m);
    }
    assert_eq!(EltorMode::from_str("exit").unwrap_err(), "Invalid mode: exit");
}
