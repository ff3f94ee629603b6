use qtun::config::{
    clap_parse_ports, parse_endpoint, transport_settings, QuicCongestionControlAlgorithm,
    TransportOptions, PORT_RANGE_END_ERROR, PORT_RANGE_FORMAT_ERROR,
};

#[test]
fn single_port() {
    assert_eq!(clap_parse_ports("80"), Ok(80..81));
    assert_eq!(clap_parse_ports("+8"), Ok(8..9));
    assert_eq!(clap_parse_ports("0"), Ok(0..1));
    assert_eq!(clap_parse_ports("65534"), Ok(65534..65535));
}

#[test]
fn port_range() {
    assert_eq!(clap_parse_ports("1000-2000"), Ok(1000..2000));
    assert_eq!(clap_parse_ports("0-65535"), Ok(0..65535));
    assert_eq!(clap_parse_ports("9-3"), Ok(9..3));
}

#[test]
fn too_many_dashes() {
    assert_eq!(clap_parse_ports("1-2-3"), Err(PORT_RANGE_FORMAT_ERROR.to_string()));
    assert_eq!(clap_parse_ports("--"), Err(PORT_RANGE_FORMAT_ERROR.to_string()));
}

#[test]
fn last_port_alone_is_rejected() {
    assert_eq!(clap_parse_ports("65535"), Err(PORT_RANGE_END_ERROR.to_string()));
}

#[test]
fn bad_numbers() {
    assert_eq!(clap_parse_ports(""), Err("cannot parse integer from empty string".to_string()));
    assert_eq!(clap_parse_ports("8x"), Err("invalid digit found in string".to_string()));
    assert_eq!(clap_parse_ports("70000"), Err("number too large to fit in target type".to_string()));
    assert!(clap_parse_ports("5-").is_err());
    assert!(clap_parse_ports("-5").is_err());
    assert!(clap_parse_ports(" 5").is_err());
    assert!(clap_parse_ports("1-x").is_err());
    assert!(clap_parse_ports("é-1").is_err());
}

#[test]
fn endpoint_with_range() {
    let e = parse_endpoint("localhost:80-82").unwrap();
    assert_eq!(e.host, "localhost");
    assert_eq!(e.ports, 80..82);
    let e = parse_endpoint("127.0.0.1:443").unwrap();
    assert_eq!(e.host, "127.0.0.1");
    assert_eq!(e.ports, 443..444);
    let e = parse_endpoint("hôte:1").unwrap();
    assert_eq!(e.host, "hôte");
}

#[test]
fn endpoint_without_single_colon() {
    assert_eq!(
        parse_endpoint("localhost").err().unwrap(),
        "Invalid address string: localhost. the desired format is `ip_or_domain_name:port-range`"
    );
    assert_eq!(
        parse_endpoint("::1:80").err().unwrap(),
        "Invalid address string: ::1:80. the desired format is `ip_or_domain_name:port-range`"
    );
}

#[test]
fn endpoint_with_bad_ports() {
    assert_eq!(parse_endpoint("h:1-2-3").err().unwrap(), PORT_RANGE_FORMAT_ERROR);
    assert_eq!(parse_endpoint("h:x").err().unwrap(), "invalid digit found in string");
}

#[test]
fn settings_from_defaults() {
    let opts = TransportOptions {
        timeout_ms: 5000,
        mtu: 1350,
        cc: QuicCongestionControlAlgorithm::default(),
        buf: 1048576,
        mux: 100,
        max_conn_win: 24 * 1024 * 1024,
        max_stream_win: 16 * 1024 * 1024,
    };
    let s = transport_settings(&opts);
    assert_eq!(s.max_idle_timeout_ms, 5000);
    assert_eq!(s.max_send_udp_payload_size, 1350);
    assert_eq!(s.initial_max_data, 104857600);
    assert_eq!(s.initial_max_stream_data_bidi_local, 1048576);
    assert_eq!(s.initial_max_stream_data_bidi_remote, 1048576);
    assert_eq!(s.initial_max_streams_bidi, 100);
    assert_eq!(s.initial_max_streams_uni, 100);
    assert!(!s.disable_active_migration);
    assert_eq!(s.cc, QuicCongestionControlAlgorithm::CUBIC);
    assert_eq!(s.max_connection_window, 25165824);
    assert_eq!(s.max_stream_window, 16777216);
}

#[test]
fn idle_timeout_is_cut_to_64_bits() {
    let opts = TransportOptions {
        timeout_ms: (1u128 << 64) + 7,
        mtu: 1200,
        cc: QuicCongestionControlAlgorithm::BBR2,
        buf: 0,
        mux: 0,
        max_conn_win: 1,
        max_stream_win: 2,
    };
    let s = transport_settings(&opts);
    assert_eq!(s.max_idle_timeout_ms, 7);
    assert_eq!(s.initial_max_data, 0);
    assert_eq!(s.cc, QuicCongestionControlAlgorithm::BBR2);
}
