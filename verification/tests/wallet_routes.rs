use eltor_backend::routes::wallet::{
    cached_offer, config_response, record_offer, delete_lightning_config, list_lightning_configs, node_type_changed,
    parse_request_node_type, should_fetch_new_offer, upsert_lightning_config, DeleteLightningConfigRequest,
    RouteError, UpsertLightningConfigRequest,
};
use eltor_backend::torrc_parser::{get_all_payment_lightning_configs, LightningConfig, NodeType};

const TORRC: &str = "SocksPort 9050
PaymentLightningNodeConfig type=phoenixd url=http://127.0.0.1:9740 password=p1 default=true
PaymentLightningNodeConfig type=cln url=https://cln rune=r1
";

fn upsert(node_type: &str, url: &str, default: bool) -> UpsertLightningConfigRequest {
    UpsertLightningConfigRequest {
        node_type: node_type.to_string(),
        url: url.to_string(),
        password: "secret".to_string(),
        set_as_default: default,
        is_embedded: None,
    }
}

#[test]
fn node_types_must_be_exact() {
    assert_eq!(parse_request_node_type("lnd").unwrap(), NodeType::Lnd);
    match parse_request_node_type("LND") {
        Err(RouteError::BadRequest(m)) => assert_eq!(m, "Invalid node type. Must be 'phoenixd', 'cln', or 'lnd'"),
        other => panic!("unexpected {:?}", other),
    }
}

#[test]
fn upsert_updates_both_files() {
    let out = upsert_lightning_config(&upsert("lnd", "https://lnd", true), TORRC, &Ok(TORRC.to_string())).unwrap();
    assert!(out.torrc.contains("PaymentLightningNodeConfig type=lnd url=https://lnd macaroon=secret default=true"));
    assert!(out.torrc.contains("PaymentLightningNodeConfig type=phoenixd url=http://127.0.0.1:9740 password=p1\n"));
    assert_eq!(out.relay.clone().unwrap(), out.torrc);
    assert!(out.node_type_changed);
    assert_eq!(out.response.message, "Successfully upserted lnd lightning config for https://lnd");
}

#[test]
fn upsert_keeps_going_when_the_relay_file_is_missing() {
    let out = upsert_lightning_config(&upsert("phoenixd", "http://x", true), TORRC, &Err("gone".to_string())).unwrap();
    assert_eq!(out.relay.unwrap_err(), "gone");
    assert!(!out.node_type_changed);
}

#[test]
fn upsert_refuses_bad_type() {
    assert!(matches!(
        upsert_lightning_config(&upsert("eclair", "u", false), TORRC, &Ok(String::new())),
        Err(RouteError::BadRequest(_))
    ));
}

#[test]
fn type_change_needs_a_new_default() {
    let configs = get_all_payment_lightning_configs(TORRC);
    assert!(!node_type_changed(false, &configs, "cln"));
    assert!(node_type_changed(true, &configs, "cln"));
    assert!(!node_type_changed(true, &configs, "phoenixd"));
    assert!(!node_type_changed(true, &Vec::new(), "cln"));
}

#[test]
fn delete_messages() {
    let req = DeleteLightningConfigRequest { node_type: "cln".to_string(), url: Some("https://cln".to_string()) };
    let out = delete_lightning_config(&req, TORRC, &Ok(TORRC.to_string())).unwrap();
    assert!(!out.torrc.contains("type=cln"));
    assert_eq!(out.response.message, "Successfully deleted cln lightning config for https://cln");
    let req = DeleteLightningConfigRequest { node_type: "phoenixd".to_string(), url: None };
    let out = delete_lightning_config(&req, TORRC, &Err("x".to_string())).unwrap();
    assert_eq!(out.response.message, "Successfully deleted phoenixd lightning config");
    let req = DeleteLightningConfigRequest { node_type: "lnd".to_string(), url: None };
    let out = delete_lightning_config(&req, TORRC, &Err("x".to_string())).unwrap();
    assert_eq!(out.torrc, TORRC.trim_end());
}

#[test]
fn listing_marks_credential_kind_and_embedded_node() {
    let list = list_lightning_configs(TORRC);
    assert_eq!(list.configs.len(), 2);
    assert_eq!(list.configs[0].password_type, "password");
    assert_eq!(list.configs[0].is_embedded, Some(true));
    assert!(list.configs[0].is_default);
    assert_eq!(list.configs[1].password_type, "rune");
    assert_eq!(list.configs[1].is_embedded, Some(false));
    let odd = LightningConfig {
        node_type: "lnd".to_string(),
        url: "http://localhost:9740".to_string(),
        password: "m".to_string(),
        is_default: false,
    };
    let r = config_response(&odd);
    assert_eq!(r.password_type, "macaroon");
    assert_eq!(r.is_embedded, Some(false));
}

#[test]
fn recorded_offers() {
    let relay = "Nickname x\nPaymentBolt12Offer lno1abc\n";
    let c = cached_offer(relay).unwrap();
    assert_eq!(c.payment_request, "lno1abc");
    assert_eq!(c.payment_hash, "");
    assert!(cached_offer("PaymentBolt12Offer \n").is_none());
    assert!(!should_fetch_new_offer(false, relay));
    assert!(should_fetch_new_offer(true, relay));
    assert!(should_fetch_new_offer(false, "Nickname x\n"));
}

#[test]
fn test_recorded_offer_is_cached() {
    let relay = "Nickname relay\nPaymentBolt12Offer \nORPort 9996\n";
    assert!(cached_offer(relay).is_none());
    assert!(should_fetch_new_offer(false, relay));
    let updated = record_offer(relay, "lno1qcp4256ypq");
    let cached = cached_offer(&updated).expect("offer recorded");
    assert_eq!(cached.payment_request, "lno1qcp4256ypq");
    assert_eq!(cached.payment_hash, "");
    assert!(cached.amount_sats.is_none());
    assert!(!should_fetch_new_offer(false, &updated));
    assert!(should_fetch_new_offer(true, &updated));
}
