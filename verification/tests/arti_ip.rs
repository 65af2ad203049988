use eltor_backend::arti::{arti_launch, arti_status, get_arti_socks_port, ArtiProcessHandle};
use eltor_backend::ip::{is_private_ipv4, is_private_ipv6, is_unicast_link_local_ipv6};
use eltor_backend::paths::PathConfig;

#[test]
fn arti_port_and_launch() {
    assert_eq!(get_arti_socks_port(&None), 18050);
    assert_eq!(get_arti_socks_port(&Some("19000".to_string())), 19000);
    let c = PathConfig { bin_dir: "/b".to_string(), data_dir: "/d".to_string(), app_data_dir: None };
    let l = arti_launch(&c, 18050, false);
    assert_eq!(l.program, "/b/arti");
    assert_eq!(l.args, vec!["proxy", "-o", "proxy.socks_port=18050"]);
    assert_eq!(l.working_dir, "/b");
    assert_eq!(arti_launch(&c, 18050, true).program, "/b/arti.exe");
}

#[test]
fn arti_handle() {
    let h = ArtiProcessHandle::new(321, "relay".to_string());
    assert_eq!(h.pid(), 321);
    assert_eq!(h.mode(), "relay");
    assert_eq!(arti_status(&Some(h), true), Some((321, "relay".to_string())));
    assert_eq!(arti_status(&Some(ArtiProcessHandle::new(1, "c".to_string())), false), None);
    assert_eq!(arti_status(&None, true), None);
}

#[test]
fn private_addresses() {
    assert!(is_private_ipv4([127, 0, 0, 1]));
    assert!(is_private_ipv4([10, 1, 2, 3]));
    assert!(is_private_ipv4([172, 16, 0, 1]));
    assert!(!is_private_ipv4([172, 32, 0, 1]));
    assert!(is_private_ipv4([192, 168, 1, 1]));
    assert!(is_private_ipv4([169, 254, 0, 1]));
    assert!(!is_private_ipv4([8, 8, 8, 8]));
    let mut one = [0u8; 16];
    one[15] = 1;
    assert!(is_private_ipv6(one));
    let mut ll = [0u8; 16];
    ll[0] = 0xfe;
    ll[1] = 0x80;
    assert!(is_unicast_link_local_ipv6(ll));
    assert!(is_private_ipv6(ll));
    let mut g = [0u8; 16];
    g[0] = 0x20;
    g[1] = 0x01;
    assert!(!is_private_ipv6(g));
}
