use eltor_backend::lightning::{node_config_from_torrc, wallet_status_message};
use eltor_backend::torrc_parser::{parse_lightning_config_from_torrc, LightningConfig};

#[test]
fn node_from_torrc() {
    let parsed = parse_lightning_config_from_torrc(
        "PaymentLightningNodeConfig type=cln url=https://cln rune=r default=true\n",
    );
    let n = node_config_from_torrc(parsed, &Some("false".to_string()), &Some("socks5://127.0.0.1:9050".to_string()))
        .unwrap();
    assert_eq!(n.node_type, "cln");
    assert_eq!(n.url, "https://cln");
    assert_eq!(n.auth_token, Some("r".to_string()));
    assert_eq!(n.accept_invalid_certs, Some(false));
    assert_eq!(n.socks5_proxy, Some("socks5://127.0.0.1:9050".to_string()));
    let n = node_config_from_torrc(
        parse_lightning_config_from_torrc("PaymentLightningNodeConfig type=lnd url=u macaroon=m\n"),
        &Some("maybe".to_string()),
        &None,
    )
    .unwrap();
    assert_eq!(n.accept_invalid_certs, Some(true));
}

#[test]
fn missing_or_unknown_nodes() {
    assert_eq!(
        node_config_from_torrc(Ok(None), &None, &None).unwrap_err(),
        "No PaymentLightningNodeConfig found in torrc file"
    );
    let odd = LightningConfig {
        node_type: "eclair".to_string(),
        url: "u".to_string(),
        password: "p".to_string(),
        is_default: true,
    };
    assert_eq!(node_config_from_torrc(Ok(Some(odd)), &None, &None).unwrap_err(), "Unsupported node type from torrc: eclair");
    assert_eq!(node_config_from_torrc(Err("read failed".to_string()), &None, &None).unwrap_err(), "read failed");
}

#[test]
fn wallet_status() {
    assert_eq!(wallet_status_message(&Some("lnd".to_string())), "Lightning wallet connected (lnd)");
    assert_eq!(wallet_status_message(&None), "Lightning wallet not connected");
}
