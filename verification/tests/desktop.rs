use eltor_backend::desktop::{
    bin_dir_probes, create_tauri_path_config, desktop_detect_phoenix_config, get_bin_dir, get_binary_path,
    get_dev_data_dir, get_torrc_path, get_torrc_relay_path, random_desktop_nickname, record_payment_rate, substitute_desktop_torrc,
    substitute_desktop_torrc_relay, tauri_path_probes, AppDataDir,
};

#[test]
fn dev_data_dir() {
    assert_eq!(get_dev_data_dir(&Ok("/r/frontend/src-tauri".to_string()), &[]).unwrap(), "/r/backend/bin/data");
    let existing = vec!["/r/backend".to_string()];
    assert_eq!(get_dev_data_dir(&Ok("/r".to_string()), &existing).unwrap(), "/r/backend/bin/data");
    assert_eq!(get_dev_data_dir(&Ok("/r".to_string()), &[]).unwrap_err(), "Not in development environment");
    assert_eq!(get_dev_data_dir(&Err("e".to_string()), &[]).unwrap_err(), "Failed to get current directory: e");
}

#[test]
fn desktop_torrc_files() {
    let dev = Ok("/r/backend/bin/data".to_string());
    let app = Ok("/home/u/eltor".to_string());
    assert_eq!(get_torrc_path(&dev, &app).unwrap(), "/r/backend/bin/data/torrc");
    let none = Err("Not in development environment".to_string());
    assert_eq!(get_torrc_path(&none, &app).unwrap(), "/home/u/eltor/torrc");
    assert_eq!(get_torrc_relay_path(&none, &app).unwrap(), "/home/u/eltor/torrc.relay");
    assert_eq!(get_torrc_relay_path(&none, &Err("no home".to_string())).unwrap_err(), "no home");
}

#[test]
fn binary_directory() {
    let cur = Ok("/r/frontend/src-tauri".to_string());
    assert_eq!(get_bin_dir(&cur, &Err("x".to_string()), &[]).unwrap(), "/r/backend/bin");
    let exe = Ok("/opt/Eltor/eltor".to_string());
    let cur = Ok("/tmp".to_string());
    let probes = bin_dir_probes("/tmp", &Some("/opt/Eltor/eltor".to_string()));
    assert_eq!(probes.len(), 1 + 3 + 15);
    assert_eq!(probes[0], "/tmp/backend");
    let existing = vec!["/opt/Eltor/Resources/eltord".to_string()];
    assert_eq!(get_bin_dir(&cur, &exe, &existing).unwrap(), "/opt/Eltor/Resources");
    assert_eq!(get_bin_dir(&cur, &exe, &[]).unwrap(), "/opt/Eltor/bin");
    assert_eq!(
        get_bin_dir(&cur, &Err("no exe".to_string()), &[]).unwrap_err(),
        "Failed to get executable path: no exe"
    );
    let bin = Ok("/opt/bin".to_string());
    let existing = vec!["/opt/bin/arti".to_string()];
    assert_eq!(get_binary_path(&bin, "arti", false, &existing).unwrap(), "/opt/bin/arti");
    assert_eq!(
        get_binary_path(&bin, "eltord", false, &existing).unwrap_err(),
        "Binary eltord not found at: \"/opt/bin/eltord\""
    );
    assert_eq!(
        get_binary_path(&bin, "arti", true, &existing).unwrap_err(),
        "Binary arti.exe not found at: \"/opt/bin/arti.exe\""
    );
    let windows_existing = vec!["C:\\Eltor\\bin/arti.exe".to_string()];
    assert_eq!(
        get_binary_path(&Ok("C:\\Eltor\\bin".to_string()), "arti", true, &windows_existing).unwrap(),
        "C:\\Eltor\\bin/arti.exe"
    );
    assert_eq!(
        get_binary_path(&Ok("/opt/a\"b".to_string()), "eltord", false, &[]).unwrap_err(),
        format!("Binary eltord not found at: {:?}", std::path::Path::new("/opt/a\"b").join("eltord"))
    );
}

#[test]
fn tauri_layouts() {
    let app = AppDataDir::Ready("/home/u/eltor".to_string());
    let res = Some(Ok("/res".to_string()));
    let probes = tauri_path_probes(&res, &None);
    assert_eq!(probes[0], "/res/_up_/_up_/backend/bin");
    let existing = vec!["/res/_up_/_up_/backend/bin".to_string(), "/res/_up_/_up_/backend/bin/phoenixd".to_string()];
    let c = create_tauri_path_config(&app, &res, &Ok("/w".to_string()), "/tmp", &None, &existing).unwrap();
    assert_eq!(c.bin_dir, "/res/_up_/_up_/backend/bin");
    assert_eq!(c.data_dir, "/home/u/eltor");
    let existing = vec!["/res/IP2LOCATION-LITE-DB3.BIN".to_string()];
    let c = create_tauri_path_config(&app, &res, &Ok("/w".to_string()), "/tmp", &None, &existing).unwrap();
    assert_eq!(c.bin_dir, "/res");
    let c = create_tauri_path_config(&app, &res, &Ok("/w".to_string()), "/tmp", &Some("/dev/bin".to_string()), &[]).unwrap();
    assert_eq!(c.bin_dir, "/home/u/eltor");
    let fallback = AppDataDir::Fallback("/tmp/eltor".to_string());
    let c = create_tauri_path_config(&fallback, &None, &Ok("/w".to_string()), "/tmp", &None, &[]).unwrap();
    assert_eq!(c.bin_dir, "/w/../../backend/bin");
    assert_eq!(c.app_data_dir, Some("/tmp/eltor".to_string()));
    let c = create_tauri_path_config(&fallback, &None, &Err("x".to_string()), "/tmp", &None, &[]).unwrap();
    assert_eq!(c.bin_dir, "/tmp/eltor-bin");
    let gone = AppDataDir::Unavailable("Failed to get app data directory".to_string());
    assert_eq!(
        create_tauri_path_config(&gone, &None, &Ok("/w".to_string()), "/tmp", &None, &[]).unwrap_err(),
        "Failed to get app data directory"
    );
}

#[test]
fn phoenix_detection_on_desktop() {
    let r = desktop_detect_phoenix_config(&Some(Ok("http-password=abc\n".to_string())), true).unwrap();
    assert_eq!(r.password, Some("abc".to_string()));
    assert_eq!(r.message, "Existing Phoenix configuration detected (running: true)");
    assert_eq!(
        desktop_detect_phoenix_config(&Some(Ok("http-password=\n".to_string())), true).unwrap_err(),
        "http-password not found in phoenix.conf"
    );
    assert_eq!(
        desktop_detect_phoenix_config(&Some(Err("denied".to_string())), true).unwrap_err(),
        "Failed to read phoenix.conf: denied"
    );
    assert_eq!(
        desktop_detect_phoenix_config(&None, false).unwrap_err(),
        "Phoenix config file not found and Phoenix is not running"
    );
    assert_eq!(desktop_detect_phoenix_config(&None, true).unwrap().password, None);
}

#[test]
fn desktop_templates() {
    let n = random_desktop_nickname();
    assert_eq!(n.len(), 18);
    assert!(n.starts_with("eltor-"));
    assert!(n[6..].chars().all(|c| c.is_ascii_lowercase()));
    let out = substitute_desktop_torrc("SocksPort $APP_ELTOR_TOR_SOCKS_PORT\nDataDirectory $APP_ELTOR_TOR_DATA_DIRECTORY", "/a");
    assert_eq!(out, "SocksPort 9050\nDataDirectory /a/tor_data");
    let out = substitute_desktop_torrc_relay("Nickname $APP_ELTOR_TOR_RELAY_NICKNAME ORPort $APP_ELTOR_TOR_RELAY_OR_PORT", "/a");
    assert_eq!(out, "Nickname eltor-relay ORPort 9001");
}

#[test]
fn payment_rate_line_is_replaced_or_added() {
    assert_eq!(
        record_payment_rate("Nickname r\nPaymentRateMsats 1000\nORPort 1", 25000),
        "Nickname r\nPaymentRateMsats 25000\nORPort 1"
    );
    assert_eq!(record_payment_rate("Nickname r\n", 7), "Nickname r\nPaymentRateMsats 7");
}

#[test]
fn relay_placeholders_are_replaced_whole() {
    assert_eq!(
        substitute_desktop_torrc_relay(
            "PaymentIntervalRounds $APP_ELTOR_TOR_RELAY_PAYMENT_INTERVAL_ROUNDS\nPaymentInterval $APP_ELTOR_TOR_RELAY_PAYMENT_INTERVAL",
            "/a"
        ),
        "PaymentIntervalRounds 10\nPaymentInterval 300"
    );
}
