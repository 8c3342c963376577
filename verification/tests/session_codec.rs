use sillyvpn::session::{decode_session, encode_session, SessionRecord};

fn record() -> SessionRecord {
    SessionRecord {
        wg_ifname: "wg-temp".to_string(),
        config_path: "/home/u/tunnel.conf".to_string(),
        temp_config: "/run/sillyvpn/wg-temp.conf".to_string(),
        ip_forward_prev: "0".to_string(),
    }
}

#[test]
fn encoding_has_the_fixed_shape() {
    let json = encode_session(&record());
    assert_eq!(
        json,
        "{\"wg_ifname\":\"wg-temp\",\"config_path\":\"/home/u/tunnel.conf\",\
         \"temp_config\":\"/run/sillyvpn/wg-temp.conf\",\"ip_forward_prev\":\"0\"}"
    );
}

#[test]
fn decoding_recovers_what_was_encoded() {
    let json = encode_session(&record());
    let back = decode_session(json.as_str()).unwrap();
    assert_eq!(back.wg_ifname, "wg-temp");
    assert_eq!(back.config_path, "/home/u/tunnel.conf");
    assert_eq!(back.temp_config, "/run/sillyvpn/wg-temp.conf");
    assert_eq!(back.ip_forward_prev, "0");
}

#[test]
fn empty_fields_round_trip_too() {
    let empty = SessionRecord {
        wg_ifname: String::new(),
        config_path: String::new(),
        temp_config: String::new(),
        ip_forward_prev: String::new(),
    };
    let json = encode_session(&empty);
    let back = decode_session(json.as_str()).unwrap();
    assert_eq!(back.wg_ifname, "");
    assert_eq!(back.ip_forward_prev, "");
}

#[test]
fn malformed_records_are_rejected() {
    assert!(decode_session("").is_none());
    assert!(decode_session("{}").is_none());
    assert!(decode_session("{\"wg_ifname\":\"wg0\"}").is_none());
    assert!(decode_session("{\"wg_ifname\":\"wg0\",\"config_path\":\"c\"}").is_none());
    let good = encode_session(&record());
    let mut truncated = good.clone();
    truncated.pop();
    assert!(decode_session(truncated.as_str()).is_none());
    let trailing = format!("{} ", good);
    assert!(decode_session(trailing.as_str()).is_none());
}
