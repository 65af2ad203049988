use eltor_backend::torrc_parser::{
    get_all_payment_lightning_configs, get_config_value, get_default_value, get_torrc_config,
    modify_payment_lightning_config, parse_lightning_config_from_torrc, parse_lightning_config_string,
    parse_port_from_config, parse_torrc, parse_torrc_line, set_torrc_config_line, NodeType, Operation,
};

#[test]
fn test_get_config_value() {
    let config = "type=phoenixd url=http://127.0.0.1:9740 password=abc123 default=true";

    assert_eq!(get_config_value(config, "type"), Some("phoenixd".to_string()));
    assert_eq!(get_config_value(config, "url"), Some("http://127.0.0.1:9740".to_string()));
    assert_eq!(get_config_value(config, "password"), Some("abc123".to_string()));
    assert_eq!(get_config_value(config, "default"), Some("true".to_string()));
    assert_eq!(get_config_value(config, "nonexistent"), None);
}

#[test]
fn test_parse_lightning_config_string() {
    let config = "type=phoenixd url=http://127.0.0.1:9740 password=abc123 default=true";
    let result = parse_lightning_config_string(config).unwrap();

    assert_eq!(result.node_type, "phoenixd");
    assert_eq!(result.url, "http://127.0.0.1:9740");
    assert_eq!(result.password, "abc123");
}

#[test]
fn test_parse_cln_config() {
    let config = "type=cln url=https://cln.example.com rune=abc123rune default=true";
    let result = parse_lightning_config_string(config).unwrap();

    assert_eq!(result.node_type, "cln");
    assert_eq!(result.url, "https://cln.example.com");
    assert_eq!(result.password, "abc123rune");
}

#[test]
fn test_parse_lnd_config() {
    let config = "type=lnd url=https://lnd.example.com macaroon=abc123macaroon default=true";
    let result = parse_lightning_config_string(config).unwrap();

    assert_eq!(result.node_type, "lnd");
    assert_eq!(result.url, "https://lnd.example.com");
    assert_eq!(result.password, "abc123macaroon");
}

#[test]
fn test_modify_payment_lightning_config_upsert_new() {
    let content = "SocksPort 9050\nControlPort 9051\nDataDirectory /var/lib/tor\n";
    let updated_content = modify_payment_lightning_config(
        content,
        Operation::Upsert,
        NodeType::Phoenixd,
        Some("http://127.0.0.1:9740".to_string()),
        Some("secret123".to_string()),
        true,
    )
    .unwrap();
    assert!(updated_content.contains(
        "PaymentLightningNodeConfig type=phoenixd url=http://127.0.0.1:9740 password=secret123 default=true"
    ));
}

#[test]
fn test_modify_payment_lightning_config_upsert_existing() {
    let content = "SocksPort 9050
PaymentLightningNodeConfig type=phoenixd url=http://old.url password=oldpass default=true
PaymentLightningNodeConfig type=phoenixd url=http://old2.url password=old2pass
ControlPort 9051
";
    let updated_content = modify_payment_lightning_config(
        content,
        Operation::Upsert,
        NodeType::Phoenixd,
        Some("http://old2.url".to_string()),
        Some("newpass".to_string()),
        false,
    )
    .unwrap();
    assert!(updated_content.contains("PaymentLightningNodeConfig type=phoenixd url=http://old2.url password=newpass"));
    assert!(updated_content
        .contains("PaymentLightningNodeConfig type=phoenixd url=http://old.url password=oldpass default=true"));
    assert!(!updated_content.contains("old2pass"));
}

#[test]
fn test_modify_payment_lightning_config_upsert_multiple_same_type() {
    let content = "SocksPort 9050
PaymentLightningNodeConfig type=phoenixd url=http://phoenix1.url password=pass1 default=true
PaymentLightningNodeConfig type=phoenixd url=http://phoenix2.url password=pass2
PaymentLightningNodeConfig type=phoenixd url=http://phoenix3.url password=pass3
ControlPort 9051
";
    let updated_content = modify_payment_lightning_config(
        content,
        Operation::Upsert,
        NodeType::Phoenixd,
        Some("http://phoenix2.url".to_string()),
        Some("updated_pass2".to_string()),
        false,
    )
    .unwrap();
    assert!(updated_content
        .contains("PaymentLightningNodeConfig type=phoenixd url=http://phoenix1.url password=pass1 default=true"));
    assert!(updated_content
        .contains("PaymentLightningNodeConfig type=phoenixd url=http://phoenix2.url password=updated_pass2"));
    assert!(updated_content.contains("PaymentLightningNodeConfig type=phoenixd url=http://phoenix3.url password=pass3"));
    assert!(!updated_content.contains("password=pass2 "));
    assert!(!updated_content.contains("password=pass2\n"));
    assert!(!updated_content.contains(" password=pass2"));
    assert!(!updated_content.contains("PaymentLightningNodeConfig type=phoenixd url=http://phoenix2.url password=pass2"));
}

#[test]
fn test_modify_payment_lightning_config_delete_by_url() {
    let content = "SocksPort 9050
PaymentLightningNodeConfig type=phoenixd url=http://phoenix1.url password=pass1 default=true
PaymentLightningNodeConfig type=phoenixd url=http://phoenix2.url password=pass2
PaymentLightningNodeConfig type=phoenixd url=http://phoenix3.url password=pass3
PaymentLightningNodeConfig type=cln url=https://cln.example.com rune=cln_rune
ControlPort 9051
";
    let updated_content = modify_payment_lightning_config(
        content,
        Operation::Delete,
        NodeType::Phoenixd,
        Some("http://phoenix2.url".to_string()),
        None,
        false,
    )
    .unwrap();
    assert!(updated_content
        .contains("PaymentLightningNodeConfig type=phoenixd url=http://phoenix1.url password=pass1 default=true"));
    assert!(!updated_content.contains("PaymentLightningNodeConfig type=phoenixd url=http://phoenix2.url"));
    assert!(updated_content.contains("PaymentLightningNodeConfig type=phoenixd url=http://phoenix3.url password=pass3"));
    assert!(updated_content.contains("PaymentLightningNodeConfig type=cln url=https://cln.example.com rune=cln_rune"));
}

#[test]
fn test_modify_payment_lightning_config_delete_without_url() {
    let content = "SocksPort 9050
PaymentLightningNodeConfig type=phoenixd url=http://phoenix1.url password=pass1 default=true
PaymentLightningNodeConfig type=phoenixd url=http://phoenix2.url password=pass2
PaymentLightningNodeConfig type=cln url=https://cln.example.com rune=cln_rune
ControlPort 9051
";
    let updated_content =
        modify_payment_lightning_config(content, Operation::Delete, NodeType::Phoenixd, None, None, false).unwrap();
    assert!(!updated_content.contains("PaymentLightningNodeConfig type=phoenixd url=http://phoenix1.url"));
    assert!(updated_content.contains("PaymentLightningNodeConfig type=phoenixd url=http://phoenix2.url password=pass2"));
    assert!(updated_content.contains("PaymentLightningNodeConfig type=cln url=https://cln.example.com rune=cln_rune"));
}

#[test]
fn test_modify_payment_lightning_config_upsert_new_when_url_not_found() {
    let content = "SocksPort 9050
PaymentLightningNodeConfig type=phoenixd url=http://existing.url password=existing_pass default=true
ControlPort 9051
";
    let updated_content = modify_payment_lightning_config(
        content,
        Operation::Upsert,
        NodeType::Phoenixd,
        Some("http://new.url".to_string()),
        Some("new_pass".to_string()),
        false,
    )
    .unwrap();
    assert!(updated_content.contains(
        "PaymentLightningNodeConfig type=phoenixd url=http://existing.url password=existing_pass default=true"
    ));
    assert!(updated_content.contains("PaymentLightningNodeConfig type=phoenixd url=http://new.url password=new_pass"));
}

#[test]
fn test_modify_payment_lightning_config_delete() {
    let content = "SocksPort 9050
PaymentLightningNodeConfig type=phoenixd url=http://127.0.0.1:9740 password=secret123 default=true
PaymentLightningNodeConfig type=phoenixd url=http://127.0.0.2:9740 password=secret2
PaymentLightningNodeConfig type=cln url=https://cln.example.com rune=cln_rune
ControlPort 9051
";
    let updated_content = modify_payment_lightning_config(
        content,
        Operation::Delete,
        NodeType::Phoenixd,
        Some("http://127.0.0.1:9740".to_string()),
        None,
        false,
    )
    .unwrap();
    assert!(!updated_content.contains("PaymentLightningNodeConfig type=phoenixd url=http://127.0.0.1:9740"));
    assert!(updated_content.contains("PaymentLightningNodeConfig type=phoenixd url=http://127.0.0.2:9740 password=secret2"));
    assert!(updated_content.contains("type=cln"));
}

#[test]
fn test_modify_payment_lightning_config_change_default() {
    let content = "PaymentLightningNodeConfig type=phoenixd url=http://phoenix.url password=phoenix_pass default=true
PaymentLightningNodeConfig type=cln url=https://cln.example.com rune=cln_rune
";
    let updated_content = modify_payment_lightning_config(
        content,
        Operation::Upsert,
        NodeType::Cln,
        Some("https://new-cln.example.com".to_string()),
        Some("new_cln_rune".to_string()),
        true,
    )
    .unwrap();
    assert!(updated_content.contains(
        "PaymentLightningNodeConfig type=cln url=https://new-cln.example.com rune=new_cln_rune default=true"
    ));
    let phoenixd_line = updated_content.lines().find(|line| line.contains("type=phoenixd")).unwrap();
    assert!(!phoenixd_line.contains("default=true"));
}

#[test]
fn test_ignore_commented_lines() {
    let content = "SocksPort 9050
#PaymentLightningNodeConfig type=phoenixd url=http://commented.url password=commented_pass default=true
# PaymentLightningNodeConfig type=cln url=https://also.commented rune=also_commented
PaymentLightningNodeConfig type=lnd url=https://active.lnd macaroon=active_macaroon
";
    let updated_content = modify_payment_lightning_config(
        content,
        Operation::Upsert,
        NodeType::Phoenixd,
        Some("http://new.phoenix".to_string()),
        Some("new_phoenix_pass".to_string()),
        true,
    )
    .unwrap();
    assert!(updated_content.contains("#PaymentLightningNodeConfig type=phoenixd url=http://commented.url"));
    assert!(updated_content.contains("# PaymentLightningNodeConfig type=cln"));
    assert!(updated_content.contains(
        "PaymentLightningNodeConfig type=phoenixd url=http://new.phoenix password=new_phoenix_pass default=true"
    ));
    assert!(updated_content.contains("PaymentLightningNodeConfig type=lnd url=https://active.lnd macaroon=active_macaroon"));
}

#[test]
fn test_get_all_payment_lightning_configs() {
    let content = "SocksPort 9050
#PaymentLightningNodeConfig type=phoenixd url=http://commented.url password=commented_pass
PaymentLightningNodeConfig type=phoenixd url=http://phoenix.url password=phoenix_pass default=true
PaymentLightningNodeConfig type=cln url=https://cln.example.com rune=cln_rune
PaymentLightningNodeConfig type=lnd url=https://lnd.example.com macaroon=lnd_macaroon
";
    let configs = get_all_payment_lightning_configs(content);
    assert_eq!(configs.len(), 3);

    let phoenixd_config = configs.iter().find(|c| c.node_type == "phoenixd").unwrap();
    assert_eq!(phoenixd_config.url, "http://phoenix.url");
    assert_eq!(phoenixd_config.password, "phoenix_pass");

    let cln_config = configs.iter().find(|c| c.node_type == "cln").unwrap();
    assert_eq!(cln_config.url, "https://cln.example.com");
    assert_eq!(cln_config.password, "cln_rune");

    let lnd_config = configs.iter().find(|c| c.node_type == "lnd").unwrap();
    assert_eq!(lnd_config.url, "https://lnd.example.com");
    assert_eq!(lnd_config.password, "lnd_macaroon");
}

#[test]
fn upsert_then_read_back_finds_the_written_config() {
    let content = "SocksPort 9050\nPaymentLightningNodeConfig type=cln url=https://a rune=r1 default=true\n";
    let updated = modify_payment_lightning_config(
        content,
        Operation::Upsert,
        NodeType::Lnd,
        Some("https://lnd.node".to_string()),
        Some("mac".to_string()),
        true,
    )
    .unwrap();
    let configs = get_all_payment_lightning_configs(&updated);
    let written = configs.iter().find(|c| c.node_type == "lnd").unwrap();
    assert_eq!(written.url, "https://lnd.node");
    assert_eq!(written.password, "mac");
    assert!(written.is_default);
    let cln = configs.iter().find(|c| c.node_type == "cln").unwrap();
    assert!(!cln.is_default);
}

#[test]
fn upsert_result_is_exact_text() {
    let content = "SocksPort 9050\nControlPort 9051";
    let updated = modify_payment_lightning_config(
        content,
        Operation::Upsert,
        NodeType::Phoenixd,
        Some("http://x".to_string()),
        Some("p".to_string()),
        false,
    )
    .unwrap();
    assert_eq!(
        updated,
        "SocksPort 9050\nControlPort 9051\nPaymentLightningNodeConfig type=phoenixd url=http://x password=p"
    );
}

#[test]
fn upsert_without_url_is_refused() {
    let r = modify_payment_lightning_config(
        "SocksPort 9050",
        Operation::Upsert,
        NodeType::Phoenixd,
        None,
        Some("p".to_string()),
        false,
    );
    assert!(r.is_err());
}

#[test]
fn delete_of_missing_config_leaves_the_lines() {
    let r = modify_payment_lightning_config(
        "SocksPort 9050\nControlPort 9051\n",
        Operation::Delete,
        NodeType::Cln,
        Some("https://none".to_string()),
        None,
        false,
    );
    assert_eq!(r.unwrap(), "SocksPort 9050\nControlPort 9051");
}

#[test]
fn node_type_names_round_trip() {
    assert_eq!(NodeType::from_str("PHOENIXD").unwrap(), NodeType::Phoenixd);
    assert_eq!(NodeType::from_str("Cln").unwrap(), NodeType::Cln);
    assert_eq!(NodeType::Lnd.to_string(), "lnd");
    assert_eq!(NodeType::Lnd.password_field(), "macaroon");
    assert_eq!(NodeType::Cln.password_field(), "rune");
    assert_eq!(NodeType::Phoenixd.password_field(), "password");
    assert_eq!(NodeType::from_str("eclair").unwrap_err(), "Unknown node type: eclair");
}

#[test]
fn default_value_reads_the_default_key() {
    assert_eq!(get_default_value("type=cln default=true".to_string(), "default".to_string()), Some("true".to_string()));
    assert_eq!(get_default_value("type=cln".to_string(), "default".to_string()), None);
}

#[test]
fn config_string_without_type_is_refused() {
    assert!(parse_lightning_config_string("url=http://x password=p").is_err());
}

#[test]
fn config_from_torrc_prefers_the_first_active_line() {
    let content = "SocksPort 9050\nPaymentLightningNodeConfig type=lnd url=https://l macaroon=m\n";
    let c = parse_lightning_config_from_torrc(content).unwrap().unwrap();
    assert_eq!(c.node_type, "lnd");
    assert_eq!(c.password, "m");
    assert!(parse_lightning_config_from_torrc("SocksPort 9050\n").unwrap().is_none());
}

#[test]
fn torrc_line_splits_at_first_space() {
    assert_eq!(
        parse_torrc_line("SocksPort  127.0.0.1:9050 "),
        Some(("SocksPort".to_string(), "127.0.0.1:9050".to_string()))
    );
    assert_eq!(parse_torrc_line("Nickname"), None);
}

#[test]
fn torrc_settings_are_read() {
    let cfg = parse_torrc("# comment\nNickname relay1\nControlPort 9051\nExitRelay 0\n");
    assert_eq!(cfg.control_port, Some("9051".to_string()));
    assert_eq!(cfg.nickname, Some("relay1".to_string()));
}

#[test]
fn config_values_are_listed_in_order() {
    let content = "ControlPort 9051\n#ControlPort 1\nSocksPort 0.0.0.0:18058\nControlPort 127.0.0.1:9992\n";
    assert_eq!(get_torrc_config(content, "ControlPort"), vec!["9051".to_string(), "127.0.0.1:9992".to_string()]);
    assert_eq!(get_torrc_config(content, "Missing"), Vec::<String>::new());
}

#[test]
fn ports_are_read_from_values() {
    assert_eq!(parse_port_from_config("9992"), Some(9992));
    assert_eq!(parse_port_from_config("127.0.0.1:9992"), Some(9992));
    assert_eq!(parse_port_from_config("auto"), None);
    assert_eq!(parse_port_from_config("0.0.0.0:70000"), None);
}

#[test]
fn config_line_is_set_or_added() {
    assert_eq!(
        set_torrc_config_line("A 1\nPaymentBolt12Offer old\nB 2", "PaymentBolt12Offer", "lno1"),
        "A 1\nPaymentBolt12Offer lno1\nB 2"
    );
    assert_eq!(set_torrc_config_line("A 1", "PaymentBolt12Offer", "lno1"), "A 1\nPaymentBolt12Offer lno1");
}

#[test]
fn test_set_then_get_reads_back_value() {
    let content = "# PaymentBolt12Offer commented\r\nSocksPort 9050\r\nPaymentBolt12Offer old\nPaymentBolt12Offer older\n";
    let updated = set_torrc_config_line(content, "PaymentBolt12Offer", "lno1new");
    let offers = get_torrc_config(&updated, "PaymentBolt12Offer");
    assert_eq!(offers[0], "lno1new");
    assert_eq!(offers, vec!["lno1new".to_string(), "older".to_string()]);
    assert_eq!(get_torrc_config(&updated, "SocksPort"), get_torrc_config(content, "SocksPort"));
}

#[test]
fn test_set_then_get_on_missing_key() {
    let content = "SocksPort 9050\nControlPort 9051\n\n";
    let updated = set_torrc_config_line(content, "PaymentRateMsats", "1000");
    assert_eq!(get_torrc_config(&updated, "PaymentRateMsats"), vec!["1000".to_string()]);
    assert_eq!(get_torrc_config(&updated, "ControlPort"), vec!["9051".to_string()]);
    assert_eq!(get_torrc_config(&updated, "SocksPort"), vec!["9050".to_string()]);
}

#[test]
fn node_type_names_read_back_in_any_case() {
    for t in [NodeType::Cln, NodeType::Lnd, NodeType::Phoenixd] {
        assert_eq!(NodeType::from_str(&t.to_string()), Ok(t));
        assert_eq!(NodeType::from_str(&t.to_string().to_uppercase()), Ok(t));
        let line = format!("type={} url=http://n:1 {}=secret", t.to_string(), t.password_field());
        let c = parse_lightning_config_string(&line).unwrap();
        assert_eq!(c.node_type, t.to_string());
        assert_eq!(c.url, "http://n:1");
        assert_eq!(c.password, "secret");
        assert!(!c.is_default);
    }
    assert_eq!(NodeType::from_str("eclair").unwrap_err(), "Unknown node type: eclair");
}
