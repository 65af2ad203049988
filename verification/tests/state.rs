use eltor_backend::state::{determine_log_mode, should_skip_log, LogBuffer, LogEntry};

fn entry(i: i64) -> LogEntry {
    LogEntry {
        timestamp: i,
        level: "INFO".to_string(),
        message: format!("m{}", i),
        source: "system".to_string(),
        mode: None,
    }
}

#[test]
fn buffer_keeps_the_latest_hundred() {
    let mut b = LogBuffer::new();
    for i in 0..150 {
        b.add_log(entry(i));
        assert!(b.len() <= 100);
    }
    let logs = b.get_recent_logs();
    assert_eq!(logs.len(), 100);
    assert_eq!(logs[0].timestamp, 50);
    assert_eq!(logs[99].timestamp, 149);
    assert_eq!(logs[99].message, "m149");
}

#[test]
fn buffer_below_capacity_keeps_everything() {
    let mut b = LogBuffer::new();
    b.add_log(entry(1));
    b.add_log(entry(2));
    let logs = b.get_recent_logs();
    assert_eq!(logs.len(), 2);
    assert_eq!(logs[0].timestamp, 1);
}

#[test]
fn log_modes() {
    assert_eq!(determine_log_mode("running in both mode", "x"), Some("both".to_string()));
    assert_eq!(determine_log_mode("mode relay active", "x"), Some("relay".to_string()));
    assert_eq!(determine_log_mode("client mode", "x"), Some("client".to_string()));
    assert_eq!(determine_log_mode("Relay up", "x"), Some("relay".to_string()));
    assert_eq!(determine_log_mode("hello", "eltor::relay"), Some("relay".to_string()));
    assert_eq!(determine_log_mode("Starting eltor client", "eltor"), Some("client".to_string()));
    assert_eq!(determine_log_mode("Starting eltor client", "other"), None);
    assert_eq!(determine_log_mode("hello", "x"), None);
}

#[test]
fn noisy_logs_are_skipped() {
    assert!(should_skip_log("[ELTORD-STDOUT] x", "a"));
    assert!(should_skip_log("[eltord-client] y", "a"));
    assert!(should_skip_log("got eltord-stderr line", "a"));
    assert!(should_skip_log(&"x".repeat(501), "eltor::net"));
    assert!(!should_skip_log(&"x".repeat(500), "eltor::net"));
    assert!(!should_skip_log(&"x".repeat(501), "eltor_backend"));
    assert!(!should_skip_log("plain", "a"));
}
