use eltor_backend::paths::{
    detect_paths, find_backend_dir, join_path, path_probes, random_nickname, substitute_all,
    substitute_torrc_relay_variables, substitute_torrc_relay_variables_with, substitute_torrc_variables,
    substitute_torrc_variables_with, PathConfig, PathEnv, TorrcEnv, TorrcRelayEnv,
};

fn config() -> PathConfig {
    PathConfig { bin_dir: "/opt/eltor/bin".to_string(), data_dir: "/var/eltor".to_string(), app_data_dir: None }
}

fn env(cur: &str) -> PathEnv {
    PathEnv {
        current_dir: Ok(cur.to_string()),
        bin_dir_override: None,
        data_dir_override: None,
        docker_env: false,
        exe_path: None,
        manifest_dir: None,
        tauri_mode: false,
        app_data_dir: Ok("/home/u/.local/share/eltor".to_string()),
    }
}

#[test]
fn join_follows_separator_rules() {
    assert_eq!(join_path("/a", "b"), "/a/b");
    assert_eq!(join_path("/a/", "b"), "/a/b");
    assert_eq!(join_path("", "b"), "b");
    assert_eq!(join_path("/a", "/etc/x"), "/etc/x");
}

#[test]
fn torrc_paths() {
    let c = config();
    assert_eq!(c.get_torrc_path(None), "/var/eltor/torrc");
    assert_eq!(c.get_torrc_path(Some("torrc.relay")), "/var/eltor/torrc.relay");
    assert_eq!(c.get_torrc_relay_path(), "/var/eltor/torrc.relay");
    assert_eq!(c.get_executable_path("phoenixd", false), "/opt/eltor/bin/phoenixd");
    assert_eq!(c.get_executable_path("phoenixd", true), "/opt/eltor/bin/phoenixd.exe");
    assert_eq!(c.get_torrc_data_dir("data/torrc"), "/var/eltor/torrc");
    assert_eq!(c.get_torrc_data_dir("torrc"), "/var/eltor/torrc");
    assert_eq!(c.get_torrc_path_for_ports("data/torrc"), "./bin/data/torrc");
    assert_eq!(c.get_torrc_path_for_ports("torrc.relay"), "./bin/data/torrc.relay");
}

#[test]
fn overrides_win_when_both_are_given() {
    let e = env("/x");
    let c = PathConfig::with_overrides(Some("/b".to_string()), Some("/d".to_string()), &e, &[]).unwrap();
    assert_eq!(c.bin_dir, "/b");
    assert_eq!(c.data_dir, "/d");
    assert_eq!(c.app_data_dir, Some("/d".to_string()));
}

#[test]
fn tauri_layout_uses_resource_dir() {
    let c = PathConfig::for_tauri_with_resource_dir("/res".to_string(), Ok("/appdata".to_string())).unwrap();
    assert_eq!(c.bin_dir, "/res");
    assert_eq!(c.data_dir, "/appdata");
    assert_eq!(c.app_data_dir, Some("/appdata".to_string()));
    assert_eq!(
        PathConfig::for_tauri_with_resource_dir("/res".to_string(), Err("no data dir".to_string())).unwrap_err(),
        "no data dir"
    );
}

#[test]
fn bin_dir_variable_comes_first() {
    let mut e = env("/work");
    e.bin_dir_override = Some("/custom/bin".to_string());
    let (b, d, a) = detect_paths(&e, &[]).unwrap();
    assert_eq!(b, "/custom/bin");
    assert_eq!(d, "/custom/bin/data");
    assert_eq!(a, None);
    e.data_dir_override = Some("/custom/data".to_string());
    assert_eq!(detect_paths(&e, &[]).unwrap().1, "/custom/data");
}

#[test]
fn docker_checkout_is_detected() {
    let e = env("/work");
    let existing = vec!["/home/user/code/eltor-app".to_string()];
    let (b, d, a) = detect_paths(&e, &existing).unwrap();
    assert_eq!(b, "/home/user/code/eltor-app/backend/bin");
    assert_eq!(d, "/home/user/code/eltor-app/backend/bin/data");
    assert_eq!(a, None);
}

#[test]
fn development_checkout_is_found() {
    let e = env("/repo/backend");
    let (b, d, a) = detect_paths(&e, &[]).unwrap();
    assert_eq!(b, "/repo/backend/bin");
    assert_eq!(d, "/repo/backend/bin/data");
    assert_eq!(a, None);
    let e = env("/repo");
    let existing = vec!["/repo/backend".to_string()];
    assert_eq!(detect_paths(&e, &existing).unwrap().0, "/repo/backend/bin");
    let e = env("/repo/frontend/src-tauri");
    assert_eq!(detect_paths(&e, &[]).unwrap().0, "/repo/backend/bin");
    let e = env("/elsewhere");
    assert_eq!(detect_paths(&e, &[]).unwrap_err(), "Could not locate backend directory");
}

#[test]
fn current_dir_failure_is_reported() {
    let mut e = env("/x");
    e.current_dir = Err("gone".to_string());
    assert_eq!(detect_paths(&e, &[]).unwrap_err(), "Failed to get current directory: gone");
    assert!(PathConfig::new(&e, &[]).is_err());
}

#[test]
fn bundled_executable_is_detected() {
    let mut e = env("/tmp");
    e.exe_path = Some("/Applications/Eltor.app/Contents/MacOS/eltor".to_string());
    let probes = path_probes(&e);
    assert_eq!(
        probes,
        vec![
            "/home/user/code/eltor-app".to_string(),
            "/Applications/Eltor.app/Contents/MacOS/torrc.template".to_string(),
            "/Applications/Eltor.app/Contents/MacOS/phoenixd".to_string(),
            "/Applications/Eltor.app/Contents/Resources".to_string(),
            "/Applications/Eltor.app/Contents/Resources/_up_/_up_/backend/bin".to_string(),
            "/tmp/backend".to_string(),
        ]
    );
    let existing = vec!["/Applications/Eltor.app/Contents/Resources".to_string()];
    let (b, d, a) = detect_paths(&e, &existing).unwrap();
    assert_eq!(b, "/Applications/Eltor.app/Contents/Resources");
    assert_eq!(d, "/home/u/.local/share/eltor");
    assert_eq!(a, Some("/home/u/.local/share/eltor".to_string()));
    let existing = vec![
        "/Applications/Eltor.app/Contents/Resources".to_string(),
        "/Applications/Eltor.app/Contents/Resources/_up_/_up_/backend/bin".to_string(),
    ];
    assert_eq!(detect_paths(&e, &existing).unwrap().0, "/Applications/Eltor.app/Contents/Resources/_up_/_up_/backend/bin");
}

#[test]
fn backend_dir_from_manifest() {
    assert_eq!(find_backend_dir("/nowhere", &[], &Some("/src/backend".to_string())).unwrap(), "/src/backend");
    assert_eq!(find_backend_dir("/nowhere", &[], &Some("/src".to_string())).unwrap(), "/src/backend");
}

#[test]
fn substitution_replaces_in_order() {
    let pairs = vec![("$A".to_string(), "x".to_string()), ("$AB".to_string(), "y".to_string())];
    assert_eq!(substitute_all("$AB $A", &pairs), "xB x");
}

#[test]
fn client_template_is_filled() {
    let env = TorrcEnv {
        nickname: None,
        data_directory: None,
        socks_port: Some("9150".to_string()),
        control_port: None,
        hashed_control_password: None,
        client_address: None,
        payment_circuit_max_fee: None,
        ln_config: None,
        additional_dir_authority: None,
    };
    let t = "Nickname $APP_ELTOR_TOR_NICKNAME\nDataDirectory $APP_ELTOR_TOR_DATA_DIRECTORY\nSocksPort $APP_ELTOR_TOR_SOCKS_PORT\nControlPort $APP_ELTOR_TOR_CONTROL_PORT\n$APP_ELTOR_LN_CONFIG";
    let out = substitute_torrc_variables_with(t, &env, "abcdefghijkl", "/data/tor_data").unwrap();
    assert_eq!(out, "Nickname abcdefghijkl\nDataDirectory /data/tor_data\nSocksPort 9150\nControlPort 9992\n");
    let random = substitute_torrc_variables("Nickname $APP_ELTOR_TOR_NICKNAME", &env, "/d").unwrap();
    let nick = random.strip_prefix("Nickname ").unwrap();
    assert!(nick.len() >= 12 && nick.len() <= 19);
    assert!(nick.chars().all(|c| c.is_ascii_alphanumeric()));
}

#[test]
fn relay_template_interval_quirk() {
    let env = TorrcRelayEnv {
        nickname: Some("relay7".to_string()),
        data_directory: None,
        or_port: None,
        control_port: None,
        socks_port: None,
        hashed_control_password: None,
        address: None,
        contact: None,
        sandbox: None,
        exit_relay: None,
        payment_rate_msats: None,
        payment_interval: None,
        payment_interval_rounds: None,
        payment_circuit_max_fee: None,
        ln_bolt12: None,
        ln_config: None,
        additional_dir_authority: None,
    };
    let t = "Nickname $APP_ELTOR_TOR_RELAY_NICKNAME\nAddress $APP_ELTOR_TOR_RELAY_ADDRESS\nPaymentInterval $APP_ELTOR_TOR_RELAY_PAYMENT_INTERVAL\nPaymentInvervalRounds $APP_ELTOR_TOR_RELAY_PAYMENT_INTERVAL_ROUNDS\nPaymentLightningNodeConfig $APP_ELTOR_LN_CONFIG";
    let out = substitute_torrc_relay_variables_with(t, &env, "ignored", "/d/relay", "203.0.113.5").unwrap();
    assert_eq!(
        out,
        "Nickname relay7\nAddress 203.0.113.5\nPaymentInterval 300\nPaymentInvervalRounds 10\nPaymentLightningNodeConfig type=phoenixd url=http://localhost:9740 password=password default=true"
    );
    let out = substitute_torrc_relay_variables("$APP_ELTOR_TOR_RELAY_OR_PORT", &env, "/d", "1.2.3.4").unwrap();
    assert_eq!(out, "9996");
}

#[test]
fn random_nicknames_are_well_formed() {
    for _ in 0..20 {
        let n = random_nickname();
        assert!(n.len() >= 12 && n.len() <= 19);
        assert!(n.chars().all(|c| c.is_ascii_alphanumeric()));
    }
}

#[test]
fn bin_dir_variable_wins_over_docker_and_tauri() {
    let mut e = env("/work");
    e.bin_dir_override = Some("/custom/bin".to_string());
    e.docker_env = true;
    e.tauri_mode = true;
    let existing = vec!["/home/user/code/eltor-app".to_string(), "/work/backend".to_string()];
    let c = PathConfig::new(&e, &existing).unwrap();
    assert_eq!(c.bin_dir, "/custom/bin");
    assert_eq!(c.data_dir, "/custom/bin/data");
    assert_eq!(c.app_data_dir, None);
}
