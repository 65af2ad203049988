use eltor_backend::ports::{
    get_phoenixd_port, get_ports_to_check_with_torrc, get_tor_ports_only, is_running_from_stat, parse_torrc_ports,
    proc_stat_state, still_running_after_signal, use_phoenixd_embedded,
};

#[test]
fn torrc_ports_are_parsed_in_order() {
    let content = "# SocksPort 1\n  SocksPort 9050 IsolateDestAddr\n;ControlPort 2\nControlPort 9051\nSocksPort auto\nControlPort\nORPort 9001\n";
    let ports = parse_torrc_ports(content);
    assert_eq!(ports.len(), 2);
    assert_eq!(ports[0].port, 9050);
    assert_eq!(ports[0].service_name, "tor");
    assert_eq!(ports[0].description, "Tor SOCKS Port");
    assert_eq!(ports[1].port, 9051);
    assert_eq!(ports[1].description, "Tor Control Port");
}

#[test]
fn address_form_gives_its_port() {
    let ports = parse_torrc_ports("# SocksPort 1\nSocksPort 0.0.0.0:18058\nControlPort 9992\n");
    let found: Vec<(u16, &str, &str)> =
        ports.iter().map(|i| (i.port, i.description.as_str(), i.service_name.as_str())).collect();
    assert_eq!(found, vec![(18058, "Tor SOCKS Port", "tor"), (9992, "Tor Control Port", "tor")]);
    assert!(parse_torrc_ports("SocksPort 127.0.0.1:notaport\n").is_empty());
}

#[test]
fn unreadable_torrc_gives_defaults() {
    let ports = get_tor_ports_only(&Err("missing".to_string()));
    let numbers: Vec<u16> = ports.iter().map(|p| p.port).collect();
    assert_eq!(numbers, vec![18058, 9992, 18057, 7781]);
    assert_eq!(ports[0].description, "Tor SOCKS Port (default)");
    assert_eq!(ports[3].description, "Tor Relay Control Port (default)");
    assert!(get_tor_ports_only(&Ok(String::new())).is_empty());
}

#[test]
fn phoenixd_port_from_variable() {
    assert_eq!(get_phoenixd_port(&None), 9740);
    assert_eq!(get_phoenixd_port(&Some("9999".to_string())), 9999);
    assert_eq!(get_phoenixd_port(&Some("99999".to_string())), 9740);
    assert!(use_phoenixd_embedded(&Some("true".to_string())));
    assert!(!use_phoenixd_embedded(&Some("TRUE".to_string())));
    assert!(!use_phoenixd_embedded(&None));
}

#[test]
fn phoenixd_port_comes_first_when_embedded() {
    let ports = get_ports_to_check_with_torrc(
        &Some("9741".to_string()),
        &Some("true".to_string()),
        &Ok("SocksPort 9050\n".to_string()),
    );
    assert_eq!(ports.len(), 2);
    assert_eq!(ports[0].port, 9741);
    assert_eq!(ports[0].service_name, "phoenixd");
    assert_eq!(ports[0].description, "Phoenix Lightning Node");
    assert_eq!(ports[1].port, 9050);
    let ports = get_ports_to_check_with_torrc(&None, &None, &Err("x".to_string()));
    assert_eq!(ports.len(), 4);
}

#[test]
fn stat_state_is_read_after_the_command_name() {
    assert_eq!(proc_stat_state("1234 (eltord) S 1 2 3"), Some('S'));
    assert_eq!(proc_stat_state("1234 (a) b) Z 1"), Some('Z'));
    assert_eq!(proc_stat_state("1234 eltord S"), None);
    assert_eq!(proc_stat_state("1 (x)"), None);
    // The byte offset of ')' is used as a character position.
    assert_eq!(proc_stat_state("7 (é) R 1"), Some(' '));
}

#[test]
fn running_decisions() {
    assert!(still_running_after_signal(&Some("1 (t) S 0".to_string())));
    assert!(!still_running_after_signal(&Some("1 (t) Z 0".to_string())));
    assert!(!still_running_after_signal(&Some("garbage".to_string())));
    assert!(!still_running_after_signal(&None));
    assert!(is_running_from_stat(&Some("garbage".to_string())));
    assert!(!is_running_from_stat(&Some("1 (t) X 0".to_string())));
    assert!(!is_running_from_stat(&None));
}
