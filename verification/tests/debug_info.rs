use eltor_backend::debug_info::{DebugEnv, DebugInfo};
use eltor_backend::paths::PathConfig;

fn env() -> DebugEnv {
    DebugEnv {
        backend_port: None,
        frontend_port: None,
        port: Some("4000".to_string()),
        tauri_env: false,
        node_env: Some("production".to_string()),
        current_dir: Some("/work".to_string()),
        executable_path: None,
        platform: "linux".to_string(),
        architecture: "x86_64".to_string(),
        torrc: Ok("SocksPort 127.0.0.1:18058\nControlPort 9992\n".to_string()),
        torrc_relay: Ok("SocksPort auto\nPaymentRateMsats 2500\n".to_string()),
        socks_router_port: None,
        arti_socks_port: Some("19050".to_string()),
        eltord_socks_port: None,
        local_ip: Some("192.168.1.5".to_string()),
    }
}

fn config() -> PathConfig {
    PathConfig { bin_dir: "/b".to_string(), data_dir: "/d".to_string(), app_data_dir: None }
}

#[test]
fn report_fields() {
    let d = DebugInfo::new(&config(), &env()).unwrap();
    assert_eq!(d.torrc_path, "/d/torrc");
    assert_eq!(d.get_torrc_path(), "/d/torrc");
    assert_eq!(d.torrc_relay_path, "/d/torrc.relay");
    assert_eq!(d.backend_port, 3001);
    assert_eq!(d.frontend_port, 4000);
    assert_eq!(d.torrc_socks_port, Some(18058));
    assert_eq!(d.torrc_relay_socks_port, None);
    assert_eq!(d.environment, "web-production");
    assert_eq!(d.socks_router_port, Some("127.0.0.1:18049".to_string()));
    assert_eq!(d.arti_socks_port, Some("19050".to_string()));
    assert_eq!(d.payment_rate_msats, Some(2500));
}

#[test]
fn unreadable_files_are_described() {
    let mut e = env();
    e.torrc = Err("missing".to_string());
    e.torrc_relay = Err("missing".to_string());
    e.tauri_env = true;
    e.current_dir = None;
    let d = DebugInfo::new(&config(), &e).unwrap();
    assert_eq!(d.torrc_file, "Failed to read torrc file");
    assert_eq!(d.torrc_relay_file, "Failed to read torrc relay file");
    assert_eq!(d.environment, "tauri");
    assert_eq!(d.current_dir, "unknown");
    assert_eq!(d.torrc_socks_port, None);
    assert_eq!(d.payment_rate_msats, None);
}

#[test]
fn display_text() {
    let mut e = env();
    e.torrc = Ok("T".to_string());
    e.torrc_relay = Ok("R".to_string());
    let d = DebugInfo::new(&config(), &e).unwrap();
    let expected = "Debug Information:\nEnvironment: web-production\nPlatform: linux (x86_64)\nCurrent Directory: /work\nExecutable: unknown\nLocal IP: 192.168.1.5\n\nPaths:\n- Torrc File: /d/torrc\n- Torrc Relay File: /d/torrc.relay\n- Binary Directory: /b\n- Data Directory: /d\n- App Data Directory: none\n\nPorts:\n- Backend Port: 3001\n- Frontend Port: 4000\n- Torrc SocksPort: not found\n- Torrc Relay SocksPort: not found\n- SOCKS Router Port: 127.0.0.1:18049\n- Arti SOCKS Port: 19050\n- Torrc File Content: T\n- Torrc Relay File Content: R";
    assert_eq!(d.format_for_display(), expected);
}

#[test]
fn recorded_payment_rate_is_reported() {
    let mut e = env();
    let relay = "Nickname relay\nPaymentRateMsats 2500\nORPort 9996\n";
    e.torrc_relay = Ok(eltor_backend::desktop::record_payment_rate(relay, 12000));
    let d = DebugInfo::new(&config(), &e).unwrap();
    assert_eq!(d.payment_rate_msats, Some(12000));
    e.torrc_relay = Ok(eltor_backend::desktop::record_payment_rate("Nickname relay", 0));
    assert_eq!(DebugInfo::new(&config(), &e).unwrap().payment_rate_msats, Some(0));
}

#[test]
fn test_debug_info_creation() {
    match DebugInfo::new(&config(), &env()) {
        Ok(debug_info) => {
            let shown = debug_info.format_for_display();
            assert!(shown.starts_with("Debug Information:\n"));
            assert!(!debug_info.torrc_path.is_empty());
            assert!(!debug_info.bin_dir.is_empty());
        }
        Err(e) => panic!("debug info creation failed: {}", e),
    }
}
