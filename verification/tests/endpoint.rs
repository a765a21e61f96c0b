use stream_relay::relay::endpoint::{
    describe_with, find_host_len, find_scheme_end, pair_asks_listener, query_asks_listener,
    read_digits, read_number, read_port, remote_of_rest, resolve, resolve_after_scheme,
    role_of_rest, Endpoint, EndpointUri, Polled, SocketPlan, RECV_POLL_MS,
};
use stream_relay::relay::rist::{self, RistReceiver, RistSender};
use stream_relay::relay::srt::{self, SrtReceiver, SrtSender};
use stream_relay::relay::transport::{EndpointState, Role, TransportMeta};
use stream_relay::structures::TransportError;

fn chars(s: &str) -> Vec<char> {
    s.chars().collect()
}

fn endpoint(protocol: &str, host: &str, port: u16, role: Role, query: &str) -> EndpointUri {
    EndpointUri {
        protocol: protocol.to_string(),
        host: host.to_string(),
        port,
        role,
        query: query.to_string(),
    }
}

#[test]
fn marker_beats_caller_mode() {
    assert_eq!(
        resolve("proto://@:9000?mode=caller"),
        Ok(endpoint("proto", "0.0.0.0", 9000, Role::Listener, "mode=caller"))
    );
}

#[test]
fn listener_signs_give_listener() {
    for uri in [
        "srt://@:9000",
        "srt://@:9000?mode=listener",
        "srt://0.0.0.0:9000?mode=listener",
        "srt://10.0.0.1:9000?latency=80&mode=listener",
        "srt://host:9000?MODE=listener",
        "srt://:9000?Mode=listener&x",
        "srt://h:9000?mode=listener#f",
        "srt://h:9000?a=b&mode=listener#mode=caller",
        "srt://h:9000?a=1#x&mode=listener",
        "srt://h:9000?a#mode=listener",
        "srt://h#x:9000?mode=listener",
        "@:9000",
    ] {
        let e = resolve(uri).unwrap();
        assert_eq!(e.role, Role::Listener, "on {:?}", uri);
        assert_eq!(e.host, "0.0.0.0", "on {:?}", uri);
        assert_eq!(e.port, 9000, "on {:?}", uri);
    }
}

#[test]
fn plain_addresses_give_caller() {
    assert_eq!(
        resolve("srt://127.0.0.1:20001"),
        Ok(endpoint("srt", "127.0.0.1", 20001, Role::Caller, ""))
    );
    assert_eq!(
        resolve("rist://example.org:11000?mode=caller&psk=x"),
        Ok(endpoint("rist", "example.org", 11000, Role::Caller, "mode=caller&psk=x"))
    );
    assert_eq!(resolve("[::1]:9000?x=1"), Ok(endpoint("", "[::1]", 9000, Role::Caller, "x=1")));
    assert_eq!(resolve("h:1"), Ok(endpoint("", "h", 1, Role::Caller, "")));
    assert_eq!(resolve("srt://h:1?a=b#c=d"), Ok(endpoint("srt", "h", 1, Role::Caller, "a=b#c=d")));
    assert_eq!(resolve("srt://h#x:1?a=b"), Ok(endpoint("srt", "h#x", 1, Role::Caller, "a=b")));
}

#[test]
fn near_misses_are_no_listener_signs() {
    for uri in [
        "srt://h:1?mode=Listener",
        "srt://h:1?mode=listenerx",
        "srt://h:1?xmode=listener",
        "srt://h:1?a=mode=listener",
        "srt://h:1?mode=listener?x",
        "srt://h:1?mode",
        "srt://h:1?mode=&listener",
        "srt://@h:1",
        "srt://h:1?@",
    ] {
        assert_eq!(resolve(uri).unwrap().role, Role::Caller, "on {:?}", uri);
    }
}

#[test]
fn uri_without_address_is_refused() {
    for uri in [
        "",
        "srt://",
        "srt://@",
        "srt://@:",
        "srt://@:port",
        "srt://@:65536",
        "srt://@:-1",
        "srt://@: 9000",
        "srt://@:9000:1",
        "srt://host",
        "srt://host:",
        "srt://:9000",
        "srt://?mode=listener",
        "srt://[::1:9000",
        "srt://[::1]9000",
        "srt://h?x:9000",
        "srt://h:9000#f",
        "srt://@:9000#f",
        "srt://h:1#?mode=listener",
    ] {
        assert_eq!(resolve(uri), Err(TransportError::InvalidUri(uri.to_string())), "on {:?}", uri);
    }
}

#[test]
fn port_is_a_decimal_number_up_to_65535() {
    assert_eq!(read_port(&chars("0")), Some(0));
    assert_eq!(read_port(&chars("9000")), Some(9000));
    assert_eq!(read_port(&chars("65535")), Some(65535));
    assert_eq!(read_port(&chars("+80")), Some(80));
    assert_eq!(read_port(&chars("000000080")), Some(80));
    for text in ["", "+", "65536", "99999999999999999999", "80a", "8 0", "-80", "++80", "٣"] {
        assert_eq!(read_port(&chars(text)), None, "on {:?}", text);
    }
}

#[test]
fn port_agrees_with_the_standard_parser() {
    for text in ["0", "1", "65535", "65536", "+1", "+", "", "007", "7e1", "70000", "123456", " 1", "1 "] {
        assert_eq!(read_port(&chars(text)), text.parse::<u16>().ok(), "on {:?}", text);
    }
}

#[test]
fn scheme_ends_at_the_first_mark() {
    assert_eq!(find_scheme_end(&chars("srt://a://b")), 3);
    assert_eq!(find_scheme_end(&chars("://x")), 0);
    assert_eq!(find_scheme_end(&chars("no scheme")), 9);
    assert_eq!(find_scheme_end(&chars("a:/")), 3);
    assert_eq!(find_scheme_end(&chars("")), 0);
}

#[test]
fn host_ends_at_the_colon_or_the_bracket() {
    assert_eq!(find_host_len(&chars("host:9000")), 4);
    assert_eq!(find_host_len(&chars("host")), 4);
    assert_eq!(find_host_len(&chars(":9000")), 0);
    assert_eq!(find_host_len(&chars("[::1]:9000")), 5);
    assert_eq!(find_host_len(&chars("[::1")), 4);
    assert_eq!(find_host_len(&chars("")), 0);
}

#[test]
fn listener_mode_is_an_exact_parameter() {
    assert!(pair_asks_listener(&chars("mode=listener")));
    assert!(pair_asks_listener(&chars("MoDe=listener")));
    assert!(!pair_asks_listener(&chars("mode=LISTENER")));
    assert!(!pair_asks_listener(&chars("mode=caller")));
    assert!(!pair_asks_listener(&chars("mode")));
    assert!(!pair_asks_listener(&chars("")));
    assert!(query_asks_listener(&chars("a=1&mode=listener&b=2")));
    assert!(query_asks_listener(&chars("&&mode=listener")));
    assert!(!query_asks_listener(&chars("a=1&b=mode=listener")));
    assert!(!query_asks_listener(&chars("")));
    assert_eq!(role_of_rest(&chars("@:1?mode=caller")), Role::Listener);
    assert_eq!(role_of_rest(&chars("h:1?mode=caller")), Role::Caller);
    assert_eq!(role_of_rest(&chars("")), Role::Caller);
}

#[test]
fn rest_resolves_under_the_given_protocol() {
    assert_eq!(
        resolve_after_scheme(&chars("srt"), &chars("1.2.3.4:5?x")),
        Some(endpoint("srt", "1.2.3.4", 5, Role::Caller, "x"))
    );
    assert_eq!(resolve_after_scheme(&chars("srt"), &chars("1.2.3.4")), None);
}

#[test]
fn srt_scheme_is_stripped_as_often_as_it_stands() {
    assert_eq!(srt::strip_scheme("srt://@:9000"), "@:9000");
    assert_eq!(srt::strip_scheme("srt://srt://x"), "x");
    assert_eq!(srt::strip_scheme("rist://x"), "rist://x");
    assert_eq!(srt::strip_scheme("srt:/x"), "srt:/x");
    assert_eq!(srt::strip_scheme("\u{e9}srt://"), "\u{e9}srt://");
    assert_eq!(srt::strip_scheme("srt://\u{e9}"), "\u{e9}");
    assert_eq!(srt::strip_scheme(""), "");
    assert_eq!(rist::strip_scheme("rist://@:9000"), "@:9000");
    assert_eq!(rist::strip_scheme("srt://x"), "srt://x");
}

#[test]
fn listener_uris_are_told_apart() {
    assert!(srt::is_listener_uri("srt://@:9000"));
    assert!(srt::is_listener_uri("srt://0.0.0.0:9000?mode=listener"));
    assert!(srt::is_listener_uri("@:9000"));
    assert!(!srt::is_listener_uri("srt://127.0.0.1:10000?mode=caller"));
    assert!(!srt::is_listener_uri("rist://@:9000"));
    assert!(rist::is_listener_uri("rist://@:10000?mode=listener"));
    assert!(!rist::is_listener_uri("rist://127.0.0.1:11000?mode=caller"));
}

#[test]
fn remote_address_is_read_from_caller_uris() {
    assert_eq!(
        srt::parse_host_port("srt://127.0.0.1:10000?mode=caller"),
        Some(("127.0.0.1".to_string(), 10000))
    );
    assert_eq!(srt::parse_host_port("srt://@:9000"), None);
    assert_eq!(
        srt::parse_host_port("srt://127.0.0.1:9000?mode=listener"),
        Some(("127.0.0.1".to_string(), 9000))
    );
    assert_eq!(srt::parse_host_port("srt://127.0.0.1:9000#f"), None);
    assert_eq!(srt::parse_host_port("srt://127.0.0.1:+9000"), None);
    assert_eq!(srt::parse_host_port("srt://127.0.0.1:009000"), Some(("127.0.0.1".to_string(), 9000)));
    assert_eq!(srt::parse_host_port("srt://:9000"), None);
    assert_eq!(srt::parse_host_port("srt://127.0.0.1:x"), None);
    assert_eq!(srt::parse_host_port("srt://127.0.0.1"), None);
    assert_eq!(
        rist::parse_host_port("rist://127.0.0.1:11000?mode=caller"),
        Some(("127.0.0.1".to_string(), 11000))
    );
    assert_eq!(rist::parse_host_port("rist://@:9000"), None);
}

#[test]
fn descriptions_mask_secrets() {
    assert_eq!(srt::describe_uri("input", "srt://h:1?pass=x"), "input=srt://h:1?pass=***");
    assert_eq!(rist::describe_uri("output", "rist://@:1?psk=x&a=b"), "output=rist://@:1?psk=***&a=b");
    assert_eq!(describe_with("", ""), "=");
}

#[test]
fn receivers_bind_the_port_of_their_uri() {
    let rx = SrtReceiver::from_input_uri("srt://@:9000?mode=listener", 80).unwrap();
    assert_eq!(rx.latency_ms, 80);
    assert_eq!(rx.core.uri, "srt://@:9000?mode=listener");
    assert_eq!(rx.core.host, "0.0.0.0");
    assert_eq!(rx.core.port, 9000);
    assert_eq!(rx.core.role, Role::Listener);
    assert_eq!(rx.core.state, EndpointState::Init);
    let rx = SrtReceiver::from_input_uri("srt://0.0.0.0:9000?mode=listener", 0).unwrap();
    assert_eq!(rx.core.port, 9000);
    let rx = RistReceiver::from_input_uri("rist://192.168.1.7:10000").unwrap();
    assert_eq!((rx.core.host.as_str(), rx.core.port, rx.core.role), ("0.0.0.0", 10000, Role::Listener));
    assert_eq!(
        SrtReceiver::from_input_uri("srt://@", 80),
        Err(TransportError::InvalidUri("srt://@".to_string()))
    );
    assert_eq!(
        RistReceiver::from_input_uri("srt://@:9000"),
        Err(TransportError::InvalidUri("srt://@:9000".to_string()))
    );
}

#[test]
fn senders_reach_the_address_of_their_uri() {
    let tx = SrtSender::from_output_uri("srt://127.0.0.1:20001?mode=caller", 120).unwrap();
    assert_eq!(tx.latency_ms, 120);
    assert_eq!(tx.core.host, "127.0.0.1");
    assert_eq!(tx.core.port, 20001);
    assert_eq!(tx.core.role, Role::Caller);
    assert_eq!(tx.core.state, EndpointState::Init);
    let tx = RistSender::from_output_uri("rist://127.0.0.1:11000").unwrap();
    assert_eq!((tx.core.host.as_str(), tx.core.port), ("127.0.0.1", 11000));
    let tx = SrtSender::from_output_uri("srt://127.0.0.1:9000?mode=listener", 80).unwrap();
    assert_eq!((tx.core.host.as_str(), tx.core.port, tx.core.role), ("127.0.0.1", 9000, Role::Caller));
    for uri in [
        "srt://@:9000",
        "srt://@:9000?mode=caller",
        "srt://127.0.0.1",
        "srt://:9000",
        "srt://127.0.0.1:+9000",
        "srt://127.0.0.1:9000#f",
    ] {
        assert_eq!(
            SrtSender::from_output_uri(uri, 80),
            Err(TransportError::InvalidUri(uri.to_string())),
            "on {:?}",
            uri
        );
    }
    assert_eq!(
        RistSender::from_output_uri("rist://@:9000"),
        Err(TransportError::InvalidUri("rist://@:9000".to_string()))
    );
}

#[test]
fn endpoint_opens_once_and_closes_for_good() {
    let mut rx = RistReceiver::from_input_uri("rist://@:10000").unwrap();
    assert_eq!(rx.core.ensure_open(), Err(TransportError::Closed));
    assert_eq!(rx.open(), Ok(()));
    assert_eq!(rx.core.state, EndpointState::Listening);
    assert_eq!(rx.core.ensure_open(), Ok(()));
    assert_eq!(rx.open(), Err(TransportError::Other("endpoint is already open".to_string())));
    assert_eq!(rx.core.state, EndpointState::Listening);
    rx.close();
    assert_eq!(rx.core.state, EndpointState::Closed);
    rx.close();
    assert_eq!(rx.core.state, EndpointState::Closed);
    assert_eq!(rx.open(), Err(TransportError::Closed));
    assert_eq!(rx.core.state, EndpointState::Closed);
    assert_eq!(rx.core.ensure_open(), Err(TransportError::Closed));

    let mut tx = SrtSender::from_output_uri("srt://127.0.0.1:10000", 80).unwrap();
    assert_eq!(tx.open(), Ok(()));
    assert_eq!(tx.core.state, EndpointState::Connected);
    tx.close();
    assert_eq!(tx.core.state, EndpointState::Closed);
}

#[test]
fn receive_answers_by_state_and_socket() {
    let mut e = Endpoint::for_input("srt://@:9000", "srt://", "srt").unwrap();
    assert_eq!(e.received(Polled::Data(4)), Err(TransportError::Closed));
    assert_eq!(e.open(), Ok(()));
    assert_eq!(e.received(Polled::Data(4)), Ok(4));
    assert_eq!(e.received(Polled::Data(0)), Ok(0));
    assert_eq!(e.received(Polled::Elapsed), Err(TransportError::Timeout));
    assert_eq!(e.received(Polled::Failed("reset".to_string())), Err(TransportError::Io("reset".to_string())));
    e.close();
    assert_eq!(e.received(Polled::Elapsed), Err(TransportError::Closed));
    assert_eq!(RECV_POLL_MS, 20);
}

#[test]
fn send_answers_by_state_and_socket() {
    let mut e = Endpoint::for_output("srt://10.0.0.1:9000", "srt://").unwrap();
    assert_eq!(e.sent(Ok(4)), Err(TransportError::Closed));
    assert_eq!(e.open(), Ok(()));
    assert_eq!(e.sent(Ok(4)), Ok(4));
    assert_eq!(e.sent(Ok(0)), Ok(0));
    assert_eq!(e.sent(Err("unreachable".to_string())), Err(TransportError::Io("unreachable".to_string())));
    e.close();
    assert_eq!(e.sent(Ok(4)), Err(TransportError::Closed));
}

#[test]
fn endpoints_describe_themselves_without_secrets() {
    let rx = SrtReceiver::from_input_uri("srt://@:9000?passphrase=a&pass=b", 80).unwrap();
    assert_eq!(rx.describe(), "input=srt://@:9000?passphrase=a&pass=*** latency_ms=80");
    let tx = SrtSender::from_output_uri("srt://127.0.0.1:10000?mode=caller&token=t", 0).unwrap();
    assert_eq!(tx.describe(), "output=srt://127.0.0.1:10000?mode=caller&token=*** latency_ms=0");
    let tx = SrtSender::from_output_uri("srt://127.0.0.1:10000", u64::MAX).unwrap();
    assert_eq!(tx.describe(), "output=srt://127.0.0.1:10000 latency_ms=18446744073709551615");
    let rx = RistReceiver::from_input_uri("rist://@:10000?mode=listener&psk=env:FOO").unwrap();
    assert_eq!(rx.describe(), "input=rist://@:10000?mode=listener&psk=***");
    assert_eq!(rx.core.describe("rx"), "rx=rist://@:10000?mode=listener&psk=***");
    let tx = RistSender::from_output_uri("rist://127.0.0.1:11000?secret=s").unwrap();
    assert_eq!(tx.describe(), "output=rist://127.0.0.1:11000?secret=***");
}

#[test]
fn endpoints_tell_their_state_and_role() {
    let mut rx = SrtReceiver::from_input_uri("srt://@:9000", 80).unwrap();
    assert_eq!((rx.state(), rx.role()), (EndpointState::Init, Role::Listener));
    assert_eq!(rx.open(), Ok(()));
    assert_eq!((rx.state(), rx.role()), (EndpointState::Listening, Role::Listener));
    rx.close();
    assert_eq!((rx.state(), rx.role()), (EndpointState::Closed, Role::Listener));
    let mut tx = RistSender::from_output_uri("rist://127.0.0.1:11000").unwrap();
    assert_eq!((tx.state(), tx.role()), (EndpointState::Init, Role::Caller));
    assert_eq!(tx.open(), Ok(()));
    assert_eq!((tx.state(), tx.role()), (EndpointState::Connected, Role::Caller));
    let rx = RistReceiver::from_input_uri("rist://10.1.1.1:10000").unwrap();
    assert_eq!((rx.state(), rx.role()), (EndpointState::Init, Role::Listener));
    let tx = SrtSender::from_output_uri("srt://127.0.0.1:10000", 80).unwrap();
    assert_eq!((tx.state(), tx.role()), (EndpointState::Init, Role::Caller));
}

#[test]
fn listener_binds_and_caller_connects() {
    let rx = SrtReceiver::from_input_uri("srt://10.0.0.9:9000", 80).unwrap();
    assert_eq!(rx.core.socket_plan(), SocketPlan::Bind { port: 9000 });
    let tx = SrtSender::from_output_uri("srt://127.0.0.1:20001", 80).unwrap();
    assert_eq!(
        tx.core.socket_plan(),
        SocketPlan::Connect { host: "127.0.0.1".to_string(), port: 20001 }
    );
}

#[test]
fn numbers_are_read_up_to_a_limit() {
    assert_eq!(read_number(&chars("80"), u64::MAX), Some(80));
    assert_eq!(read_number(&chars("18446744073709551615"), u64::MAX), Some(u64::MAX));
    assert_eq!(read_number(&chars("18446744073709551616"), u64::MAX), None);
    assert_eq!(read_number(&chars("+0"), 0), Some(0));
    assert_eq!(read_number(&chars("1"), 0), None);
    assert_eq!(read_number(&chars("10"), 9), None);
    assert_eq!(read_number(&chars("9"), 9), Some(9));
    for text in ["0", "42", "+42", "0042", "", "+", "4 2", "-42", "18446744073709551615", "99999999999999999999"] {
        assert_eq!(read_number(&chars(text), u64::MAX), text.parse::<u64>().ok(), "on {:?}", text);
    }
}

#[test]
fn remote_address_needs_a_host_and_a_port() {
    assert_eq!(remote_of_rest(&chars("10.0.0.1:9000?mode=listener#f")), Some(("10.0.0.1".to_string(), 9000)));
    assert_eq!(remote_of_rest(&chars("[::1]:9000")), Some(("[::1]".to_string(), 9000)));
    assert_eq!(remote_of_rest(&chars("@x:9000")), Some(("@x".to_string(), 9000)));
    assert_eq!(remote_of_rest(&chars("h#:1")), Some(("h#".to_string(), 1)));
    for rest in ["", "@:9000", ":9000", "h", "h:", "h:x", "h:1#", "h:+1", "h:1#f?x", "h?:1"] {
        assert_eq!(remote_of_rest(&chars(rest)), None, "on {:?}", rest);
    }
}

#[test]
fn query_begins_at_the_first_question_mark() {
    assert!(srt::is_listener_uri("srt://h#?mode=listener"));
    assert!(srt::is_listener_uri("srt://h:1?a=1#x&mode=listener"));
    assert!(srt::is_listener_uri("srt://#&=:?mode=listener"));
    assert!(rist::is_listener_uri("rist://h#?MODE=listener"));
    assert!(!srt::is_listener_uri("srt://h#mode=listener"));
    assert!(!srt::is_listener_uri("srt://h?mode=Listener"));
    assert!(!srt::is_listener_uri("srt://@foo:9000"));
    assert!(query_asks_listener(&chars("a#mode=listener#b")));
    assert!(!query_asks_listener(&chars("a?mode=listener")));
    // the receiver still needs a port in front of the `?`
    assert!(SrtReceiver::from_input_uri("srt://h#?mode=listener", 80).is_err());
    let rx = SrtReceiver::from_input_uri("srt://h:+9000?mode=listener", 80).unwrap();
    assert_eq!(rx.core.port, 9000);
}

#[test]
fn digits_are_read_without_a_sign() {
    assert_eq!(read_digits(&chars("9000"), 65535), Some(9000));
    assert_eq!(read_digits(&chars("0009000"), 65535), Some(9000));
    assert_eq!(read_digits(&chars("65535"), 65535), Some(65535));
    for text in ["", "+9000", "-1", "65536", "9 0", "9a"] {
        assert_eq!(read_digits(&chars(text), 65535), None, "on {:?}", text);
    }
}
