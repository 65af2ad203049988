use eltor_backend::socks::{
    check_greeting, check_proxy_auth, check_proxy_reply, is_socks_router_running, parse_target_address,
    proxy_unreachable, reply_bytes, route_request, SocksRouterConfig, TargetAddress,
};

#[test]
fn default_and_environment_config() {
    let d = SocksRouterConfig::default();
    assert_eq!((d.listen_port, d.arti_socks_port, d.eltord_socks_port), (18049, 18050, 18058));
    let c = SocksRouterConfig::from_env(&Some("1080".to_string()), &Some("bad".to_string()), &None);
    assert_eq!((c.listen_port, c.arti_socks_port, c.eltord_socks_port), (1080, 18050, 18058));
}

#[test]
fn addresses_are_parsed() {
    match parse_target_address(&[1, 10, 0, 0, 1, 0x1f, 0x90]).unwrap() {
        TargetAddress::IPv4(ip, port) => {
            assert_eq!(ip, [10, 0, 0, 1]);
            assert_eq!(port, 8080);
        }
        other => panic!("unexpected {:?}", other),
    }
    let mut d = vec![3, 11];
    d.extend_from_slice(b"example.org");
    d.extend_from_slice(&[0, 80]);
    match parse_target_address(&d).unwrap() {
        TargetAddress::Domain(name, port) => {
            assert_eq!(name, "example.org");
            assert_eq!(port, 80);
        }
        other => panic!("unexpected {:?}", other),
    }
    let mut v6 = vec![4];
    v6.extend_from_slice(&[0u8; 15]);
    v6.push(1);
    v6.extend_from_slice(&[1, 187]);
    match parse_target_address(&v6).unwrap() {
        TargetAddress::IPv6(ip, port) => {
            assert_eq!(ip[15], 1);
            assert_eq!(port, 443);
        }
        other => panic!("unexpected {:?}", other),
    }
}

#[test]
fn malformed_addresses_are_refused() {
    assert_eq!(parse_target_address(&[]).unwrap_err(), "Empty address data");
    assert_eq!(parse_target_address(&[1, 1, 2]).unwrap_err(), "Invalid IPv4 address length");
    assert_eq!(parse_target_address(&[3]).unwrap_err(), "Invalid domain name length");
    assert_eq!(parse_target_address(&[3, 5, b'a', b'b']).unwrap_err(), "Incomplete domain name data");
    assert_eq!(parse_target_address(&[4, 0, 0]).unwrap_err(), "Invalid IPv6 address length");
    assert_eq!(parse_target_address(&[9, 0]).unwrap_err(), "Unsupported address type: 9");
    assert!(parse_target_address(&[3, 1, 0xff, 0, 80]).is_err());
}

#[test]
fn onion_names_go_to_arti() {
    let config = SocksRouterConfig { listen_port: 1, arti_socks_port: 2, eltord_socks_port: 3 };
    let mut req = vec![5, 1, 0, 3, 10];
    req.extend_from_slice(b"abcd.onion");
    req.extend_from_slice(&[0, 80]);
    let route = route_request(&req, &config).unwrap();
    assert!(route.target.is_onion());
    assert_eq!(route.proxy_port, 2);
    let mut req = vec![5, 1, 0, 3, 7];
    req.extend_from_slice(b"tor.org");
    req.extend_from_slice(&[1, 187]);
    let route = route_request(&req, &config).unwrap();
    assert!(!route.target.is_onion());
    assert_eq!(route.proxy_port, 3);
}

#[test]
fn requests_are_checked() {
    let config = SocksRouterConfig::default();
    let short = route_request(&[5, 1, 0, 1], &config).unwrap_err();
    assert_eq!(short.error, "Invalid SOCKS5 request");
    assert!(short.reply.is_none());
    let bind = route_request(&[5, 2, 0, 1, 1, 2, 3, 4, 0, 80], &config).unwrap_err();
    assert_eq!(bind.error, "Only CONNECT command is supported");
    assert_eq!(bind.reply.unwrap(), vec![5, 7, 0, 1, 0, 0, 0, 0, 0, 0]);
    assert_eq!(check_greeting(&[5, 1, 0]).unwrap(), vec![5, 0]);
    assert_eq!(check_greeting(&[4, 1]).unwrap_err(), "Invalid SOCKS5 greeting");
    assert_eq!(check_greeting(&[5]).unwrap_err(), "Invalid SOCKS5 greeting");
}

#[test]
fn proxy_replies() {
    assert_eq!(reply_bytes(5), vec![5, 5, 0, 1, 0, 0, 0, 0, 0, 0]);
    let r = proxy_unreachable("refused");
    assert_eq!(r.error, "Failed to connect to proxy: refused");
    assert_eq!(r.reply.unwrap()[1], 5);
    assert!(check_proxy_auth(&[5, 0]).is_ok());
    let f = check_proxy_auth(&[5, 0xff]).unwrap_err();
    assert_eq!(f.error, "Proxy authentication failed");
    assert_eq!(f.reply.unwrap()[1], 1);
    assert!(check_proxy_reply(&[5, 0, 0, 1]).is_ok());
    assert!(check_proxy_reply(&[5]).is_ok());
    assert_eq!(check_proxy_reply(&[5, 4]).unwrap_err(), "Proxy connection failed with status: 4");
    assert!(!is_socks_router_running());
}
