use std::io::Write;
use eltor_backend::routes::phoenix::{
    already_running_response, debug_pid_text, detect_config_response, detect_platform_and_arch,
    get_download_url, is_phoenixd_executable, not_running_response, parse_phoenix_password, password_retry,
    plan_entry, plan_extraction, read_planned_entry, started_response, stopped_response, ExtractAction, PHOENIX_BASE_URL,
    PHOENIX_VERSION,
};

#[test]
fn test_detect_platform_and_arch() {
    let result = detect_platform_and_arch("linux", "x86_64");
    assert!(result.is_ok(), "Should detect platform successfully");

    let (platform, arch) = result.unwrap();
    match platform.as_str() {
        "macos" => assert!(arch == "x64" || arch == "arm64"),
        "linux" => assert!(arch == "x64" || arch == "arm64"),
        "windows" => assert_eq!(arch, "jvm"),
        _ => panic!("Unsupported platform: {}", platform),
    }
}

#[test]
fn test_get_download_url() {
    let macos_x64_url = get_download_url("macos", "x64").unwrap();
    assert_eq!(
        macos_x64_url,
        format!("{}/v{}/phoenixd-{}-macos-x64.zip", PHOENIX_BASE_URL, PHOENIX_VERSION, PHOENIX_VERSION)
    );

    let windows_url = get_download_url("windows", "jvm").unwrap();
    assert_eq!(
        windows_url,
        format!("{}/v{}/phoenixd-{}-jvm.zip", PHOENIX_BASE_URL, PHOENIX_VERSION, PHOENIX_VERSION)
    );

    let linux_arm64_url = get_download_url("linux", "arm64").unwrap();
    assert_eq!(
        linux_arm64_url,
        format!("{}/v{}/phoenixd-{}-linux-arm64.zip", PHOENIX_BASE_URL, PHOENIX_VERSION, PHOENIX_VERSION)
    );
}

#[test]
fn test_extraction_logic() {
    let test_cases = vec![
        ("phoenixd", true),
        ("phoenix-cli", true),
        ("phoenixd.exe", true),
        ("phoenix-cli.exe", true),
        ("README.md", false),
        ("lib/something.so", false),
        ("phoenixd-0.6.1-macos-arm64/phoenixd", true),
        ("phoenixd-0.6.1-linux-x64/phoenix-cli", true),
        ("phoenixd-0.6.1-windows/phoenixd.exe", true),
        ("phoenixd-0.6.1-jvm/phoenix-cli.exe", true),
    ];

    for (filename, should_be_moved) in test_cases {
        let path = std::path::Path::new(filename);
        let actual_filename = path.file_name().and_then(|name| name.to_str()).unwrap_or("");
        let is_phoenixd_executable = is_phoenixd_executable(actual_filename, "windows");
        assert_eq!(
            is_phoenixd_executable, should_be_moved,
            "File '{}' -> filename '{}', is_phoenixd_executable = {}, expected = {}",
            filename, actual_filename, is_phoenixd_executable, should_be_moved
        );
    }
}

#[test]
fn exe_names_count_only_on_windows() {
    assert!(is_phoenixd_executable("phoenixd", "linux"));
    assert!(!is_phoenixd_executable("phoenixd.exe", "linux"));
    assert!(is_phoenixd_executable("phoenix-cli.exe", "windows"));
}

#[test]
fn unsupported_platform_is_refused() {
    assert_eq!(detect_platform_and_arch("freebsd", "x86_64").unwrap_err(), "Unsupported platform: freebsd-x86_64");
    assert_eq!(
        detect_platform_and_arch("linux", "aarch64").unwrap(),
        ("linux".to_string(), "arm64".to_string())
    );
    assert_eq!(detect_platform_and_arch("windows", "x86").unwrap(), ("windows".to_string(), "jvm".to_string()));
}

#[test]
fn download_url_exact_text() {
    assert_eq!(
        get_download_url("linux", "x64").unwrap(),
        "https://github.com/ACINQ/phoenixd/releases/download/v0.6.1/phoenixd-0.6.1-linux-x64.zip"
    );
}

#[test]
fn archive_entries_are_planned() {
    match plan_entry("dir/", &Some("dir".to_string()), "/bin", "linux") {
        ExtractAction::SkipDirectory => {}
        other => panic!("unexpected {:?}", other),
    }
    match plan_entry("../evil", &None, "/bin", "linux") {
        ExtractAction::SkipUnsafeName => {}
        other => panic!("unexpected {:?}", other),
    }
    match plan_entry("phoenixd-0.6.1-linux-x64/phoenixd", &Some("phoenixd-0.6.1-linux-x64/phoenixd".to_string()), "/opt/bin", "linux") {
        ExtractAction::Write { outpath, executable } => {
            assert_eq!(outpath, "/opt/bin/phoenixd");
            assert!(executable);
        }
        other => panic!("unexpected {:?}", other),
    }
    match plan_entry("pkg/README.md", &Some("pkg/README.md".to_string()), "/opt/bin/", "linux") {
        ExtractAction::Write { outpath, executable } => {
            assert_eq!(outpath, "/opt/bin/README.md");
            assert!(!executable);
        }
        other => panic!("unexpected {:?}", other),
    }
    match plan_entry("phoenixd.exe", &Some("phoenixd.exe".to_string()), "C", "windows") {
        ExtractAction::Write { executable, .. } => assert!(!executable),
        other => panic!("unexpected {:?}", other),
    }
}

#[test]
fn non_archive_bytes_are_refused() {
    let r = plan_extraction(vec![1, 2, 3, 4], "/bin", "linux");
    match r {
        Err(e) => assert!(e.starts_with("Failed to read zip archive: ")),
        Ok(_) => panic!("bytes that are no archive were accepted"),
    }
}

#[test]
fn password_is_read_from_conf() {
    let conf = "# phoenix\nhttp-password-limited-access=xyz\n  http-password=s3cret=x  \nhttp-password=later\n";
    assert_eq!(parse_phoenix_password(conf).unwrap(), "s3cret=x");
    assert_eq!(parse_phoenix_password("chain=mainnet\n").unwrap_err(), "http-password not found in phoenix.conf");
}

#[test]
fn password_retries_end_after_ten() {
    assert_eq!(password_retry(3, "not yet"), None);
    assert_eq!(
        password_retry(10, "missing"),
        Some("Failed to get Phoenix password after 10 attempts: missing".to_string())
    );
}

#[test]
fn start_and_stop_answers() {
    let s = started_response(4242, "http://127.0.0.1:9740".to_string(), String::new(), true);
    assert_eq!(s.message, "Phoenix daemon started successfully with PID: 4242");
    assert_eq!(s.password, None);
    assert!(s.downloaded);
    let s = started_response(7, "u".to_string(), "pw".to_string(), false);
    assert_eq!(s.password, Some("pw".to_string()));
    let a = already_running_response(Some(9));
    assert_eq!(a.url, Some("http://127.0.0.1:9740".to_string()));
    assert_eq!(a.password, None);
    assert_eq!(debug_pid_text(Some(12)), "Some(12)");
    assert_eq!(debug_pid_text(None), "None");
    let st = stopped_response(Some(12), "exit status: 0");
    assert_eq!(st.message, "Phoenix daemon stopped successfully (PID: Some(12), Exit: exit status: 0)");
    assert_eq!(not_running_response().message, "Phoenix daemon is not currently running");
}

#[test]
fn detection_answers() {
    let found = detect_config_response(Ok(("http://127.0.0.1:9740".to_string(), "pw".to_string())), false).unwrap();
    assert_eq!(found.message, "Existing Phoenix configuration detected (running: false)");
    assert_eq!(found.password, Some("pw".to_string()));
    let running = detect_config_response(Err("none".to_string()), true).unwrap();
    assert_eq!(running.message, "Phoenix is running but configuration not yet available");
    assert!(detect_config_response(Err("none".to_string()), false).is_none());
}

fn release_archive() -> Vec<u8> {
    let options = zip::write::SimpleFileOptions::default().compression_method(zip::CompressionMethod::Stored);
    let mut w = zip::ZipWriter::new(std::io::Cursor::new(Vec::new()));
    w.add_directory("phoenixd-0.6.1-linux-x64/", options).unwrap();
    w.start_file("phoenixd-0.6.1-linux-x64/phoenixd", options).unwrap();
    w.write_all(b"#!/bin/sh\n").unwrap();
    w.start_file("phoenixd-0.6.1-linux-x64/README.md", options).unwrap();
    w.write_all(b"readme").unwrap();
    w.finish().unwrap().into_inner()
}

#[test]
fn archive_entries_are_planned_in_order() {
    let plan = plan_extraction(release_archive(), "/opt/bin", "linux").unwrap();
    assert_eq!(plan.actions.len(), 3);
    assert!(matches!(plan.actions[0], ExtractAction::SkipDirectory));
    match &plan.actions[1] {
        ExtractAction::Write { outpath, executable } => {
            assert_eq!(outpath, "/opt/bin/phoenixd");
            assert!(*executable);
        }
        other => panic!("unexpected {:?}", other),
    }
    match &plan.actions[2] {
        ExtractAction::Write { outpath, executable } => {
            assert_eq!(outpath, "/opt/bin/README.md");
            assert!(!*executable);
        }
        other => panic!("unexpected {:?}", other),
    }
    let windows = plan_extraction(release_archive(), "/opt/bin", "windows").unwrap();
    match &windows.actions[1] {
        ExtractAction::Write { executable, .. } => assert!(!*executable),
        other => panic!("unexpected {:?}", other),
    }
}

#[test]
fn planned_entries_are_read() {
    let mut plan = plan_extraction(release_archive(), "/opt/bin", "linux").unwrap();
    assert_eq!(read_planned_entry(&mut plan, 1, "/opt/bin/phoenixd").unwrap(), b"#!/bin/sh\n".to_vec());
    assert_eq!(read_planned_entry(&mut plan, 2, "/opt/bin/README.md").unwrap(), b"readme".to_vec());
    assert!(read_planned_entry(&mut plan, 9, "/opt/bin/x").unwrap_err().starts_with("Failed to read file from archive: "));
    assert_eq!(plan.actions.len(), 3);
}

#[test]
fn compressed_entries_are_read_unpacked() {
    let content: Vec<u8> = b"phoenixd binary ".iter().cycle().take(4096).cloned().collect();
    let options = zip::write::SimpleFileOptions::default().compression_method(zip::CompressionMethod::Deflated);
    let mut w = zip::ZipWriter::new(std::io::Cursor::new(Vec::new()));
    w.start_file("pkg/phoenixd", options).unwrap();
    w.write_all(&content).unwrap();
    let data = w.finish().unwrap().into_inner();
    assert!(data.len() < content.len());
    let mut plan = plan_extraction(data, "/opt/bin", "linux").unwrap();
    assert_eq!(read_planned_entry(&mut plan, 0, "/opt/bin/phoenixd").unwrap(), content);
}
