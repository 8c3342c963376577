use sillyvpn::config::{derive_ifname, extract_dns_servers, resolver_config, sanitize_config};

fn servers(xs: &[&str]) -> Vec<Vec<u8>> {
    xs.iter().map(|s| s.as_bytes().to_vec()).collect()
}

#[test]
fn dns_lines_are_removed_and_collected() {
    let input = b"[Interface]\nAddress=10.0.0.2/32\nDNS=1.1.1.1, 9.9.9.9\ndns = 8.8.4.4\n[Peer]\n";
    let out = sanitize_config(input);
    let text = String::from_utf8(out.content.clone()).unwrap();
    assert!(!text.to_ascii_lowercase().contains("dns"));
    assert_eq!(out.dns_servers, servers(&["1.1.1.1", "9.9.9.9", "8.8.4.4"]));
}

#[test]
fn extraction_preserves_order_across_lines() {
    let input = b"DNS=9.9.9.9\nAddress=x\nDNS = 1.0.0.1 2.2.2.2,3.3.3.3\n";
    let got = extract_dns_servers(input);
    assert_eq!(got, servers(&["9.9.9.9", "1.0.0.1", "2.2.2.2", "3.3.3.3"]));
}

#[test]
fn extraction_of_config_without_dns_is_empty() {
    let got = extract_dns_servers(b"[Interface]\nAddress=10.0.0.2/32\n");
    assert!(got.is_empty());
}

#[test]
fn table_directive_is_inserted_after_first_interface_header() {
    let input = b"# comment\n[Interface]\nAddress=10.0.0.2/32\n[Peer]\nEndpoint=host:51820\n";
    let out = sanitize_config(input);
    let text = String::from_utf8(out.content).unwrap();
    assert_eq!(
        text,
        "# comment\n[Interface]\nTable = off\nAddress=10.0.0.2/32\n[Peer]\nEndpoint=host:51820\n"
    );
}

#[test]
fn existing_table_directive_suppresses_insertion() {
    let input = b"[Interface]\nAddress=10.0.0.2/32\n  Table = OFF \n[Peer]\n";
    let out = sanitize_config(input);
    let text = String::from_utf8(out.content).unwrap();
    assert_eq!(text, "[Interface]\nAddress=10.0.0.2/32\n  Table = OFF \n[Peer]\n");
}

#[test]
fn second_interface_header_gets_no_insertion() {
    let input = b"[Interface]\nA=1\n[Interface]\nB=2\n";
    let out = sanitize_config(input);
    let text = String::from_utf8(out.content).unwrap();
    assert_eq!(text, "[Interface]\nTable = off\nA=1\n[Interface]\nB=2\n");
}

#[test]
fn empty_config_sanitizes_to_nothing() {
    let out = sanitize_config(b"");
    assert!(out.content.is_empty());
    assert!(out.dns_servers.is_empty());
}

#[test]
fn crlf_endings_are_handled() {
    let input = b"[Interface]\r\nDNS=9.9.9.9\r\nAddress=x\r\n";
    let out = sanitize_config(input);
    let text = String::from_utf8(out.content).unwrap();
    assert_eq!(text, "[Interface]\nTable = off\nAddress=x\n");
    assert_eq!(out.dns_servers, servers(&["9.9.9.9"]));
}

#[test]
fn resolver_lists_each_server() {
    let content = resolver_config(&servers(&["9.9.9.9", "1.0.0.1"]));
    assert_eq!(
        String::from_utf8(content).unwrap(),
        "nameserver 9.9.9.9\nnameserver 1.0.0.1\n"
    );
}

#[test]
fn resolver_falls_back_to_fixed_public_servers() {
    let content = resolver_config(&Vec::new());
    assert_eq!(
        String::from_utf8(content).unwrap(),
        "nameserver 1.1.1.1\nnameserver 8.8.8.8\n"
    );
}

#[test]
fn interface_name_is_the_file_stem() {
    assert_eq!(derive_ifname(b"/run/sillyvpn/wg-temp.conf"), b"wg-temp".to_vec());
    assert_eq!(derive_ifname(b"plain"), b"plain".to_vec());
    assert_eq!(derive_ifname(b"/a/b/.hidden"), b".hidden".to_vec());
    assert_eq!(derive_ifname(b"a/tun.0.conf"), b"tun.0".to_vec());
}

#[test]
fn end_to_end_sanitization_scenario() {
    let input = b"[Interface]\nAddress=10.0.0.2/32\nDNS=9.9.9.9\n[Peer]\nPublicKey = k\n";
    let out = sanitize_config(input);
    let text = String::from_utf8(out.content).unwrap();
    assert_eq!(
        text,
        "[Interface]\nTable = off\nAddress=10.0.0.2/32\n[Peer]\nPublicKey = k\n"
    );
    assert_eq!(out.dns_servers, servers(&["9.9.9.9"]));
    let resolver = resolver_config(&out.dns_servers);
    assert_eq!(String::from_utf8(resolver).unwrap(), "nameserver 9.9.9.9\n");
    let ifname = derive_ifname(b"/run/sillyvpn/wg-temp.conf");
    assert_eq!(ifname, b"wg-temp".to_vec());
    let session = sillyvpn::session::SessionRecord {
        wg_ifname: String::from_utf8(ifname).unwrap(),
        config_path: "/home/u/tunnel.conf".to_string(),
        temp_config: "/run/sillyvpn/wg-temp.conf".to_string(),
        ip_forward_prev: "0".to_string(),
    };
    let stored = sillyvpn::session::encode_session(&session);
    let recovered = sillyvpn::session::decode_session(stored.as_str()).unwrap();
    assert_eq!(recovered.wg_ifname, "wg-temp");
    assert_eq!(recovered.ip_forward_prev, "0");
}
