use portal::aclutil::{ACLAction, ACLFile, ACLRule, ACLTarget, PortEntry};
use portal::client::{client_stats_line, get_server_name, parse_forward_spec, ForwardSpecError};
use portal::client_stats::{
    decrement_active_client_connections, decrement_active_connections, decrement_active_streams,
    get_total_received_bytes_counter, get_total_sent_bytes_counter, increment_active_client_connections,
    increment_active_connections, increment_active_streams, ClientStats, ClientStatsClone,
};
use portal::messages::{build_connect_request, build_connect_response, is_connect_success};
use portal::requests::{
    check_handshake_response, complete_connect_request, create_connect_request, create_ping_request,
    create_stream_meta_request, get_next_request_id, handle_server_request, parse_stream_metadata, BuildInfo,
    HandshakeError, Request, RequestType, Response, ServerNextStep, ServerRequestStep,
};
use portal::server::server_stats_line;
use portal::server_stats::{
    decrement_active_upstream_connections, get_received_bytes_counter, get_sent_bytes_counter,
    increment_active_upstream_connections, ServerStats, ServerStatsClone,
};
use portal::stringmap::StringMap;
use portal::util::{
    bytes_str, check_payload_room, check_prefix_room, decode_json_as_map, decode_string_payload,
    encode_map_as_json, frame_length, length_prefix, ConnectionId, Extendable, FrameError, IdCounter, IdError,
    JsonError, StreamId,
};
use std::sync::atomic::Ordering;
use std::sync::Arc;

fn build() -> BuildInfo {
    BuildInfo { branch: "main".to_string(), time: "2025-11-15".to_string(), host: "builder".to_string() }
}

#[test]
fn connection_id_text_round_trip() {
    let id = ConnectionId::new(42);
    assert_eq!(id.display_text(), "conn-42");
    assert_eq!(id.get(), "42");
    let back = ConnectionId::from_string(id.display_text()).unwrap();
    assert_eq!(back.get(), "42");
    assert_eq!(ConnectionId::from_string("conn-18446744073709551615".to_string()).unwrap().get(), "18446744073709551615");
}

#[test]
fn connection_id_rejects_bad_text() {
    assert_eq!(ConnectionId::from_string("connection-1".to_string()).unwrap_err(), IdError::InvalidFormat);
    assert_eq!(ConnectionId::from_string("conn".to_string()).unwrap_err(), IdError::InvalidFormat);
    assert_eq!(ConnectionId::from_string("conn-".to_string()).unwrap_err(), IdError::InvalidNumber);
    assert_eq!(ConnectionId::from_string("conn-x".to_string()).unwrap_err(), IdError::InvalidNumber);
    assert_eq!(ConnectionId::from_string("conn-18446744073709551616".to_string()).unwrap_err(), IdError::InvalidNumber);
    assert_eq!(ConnectionId::from_string("conn-+7".to_string()).unwrap().get(), "7");
}

#[test]
fn stream_ids_share_the_connection_counter() {
    let id = ConnectionId::new(3);
    let clone = id.clone();
    let a = id.next_stream_id();
    let b = clone.next_stream_id();
    assert_eq!(a.connection_id(), 3);
    assert_eq!(b.connection_id(), 3);
    assert_eq!(a.stream_id(), 0);
    assert_eq!(b.stream_id(), 1);
}

#[test]
fn stream_id_text_round_trip() {
    let s = StreamId::new(5, 9);
    assert_eq!(s.display_text(), "stream-5-9");
    let back = StreamId::from_string(s.display_text()).unwrap();
    assert_eq!((back.connection_id(), back.stream_id()), (5, 9));
    let other = StreamId::from_string("anything-1-2".to_string()).unwrap();
    assert_eq!((other.connection_id(), other.stream_id()), (1, 2));
}

#[test]
fn stream_id_rejects_bad_text() {
    assert_eq!(StreamId::from_string("stream-1".to_string()).unwrap_err(), IdError::InvalidFormat);
    assert_eq!(StreamId::from_string("stream-1-2-3".to_string()).unwrap_err(), IdError::InvalidFormat);
    assert_eq!(StreamId::from_string("stream".to_string()).unwrap_err(), IdError::InvalidFormat);
    assert_eq!(StreamId::from_string("stream-a-2".to_string()).unwrap_err(), IdError::InvalidNumber);
    assert_eq!(StreamId::from_string("stream-1-".to_string()).unwrap_err(), IdError::InvalidNumber);
}

#[test]
fn id_counter_counts_and_wraps() {
    let mut c = IdCounter::new();
    assert_eq!(c.take_next(), 0);
    assert_eq!(c.take_next(), 1);
    assert_eq!(get_next_request_id(&mut c), 2);
    assert_eq!(get_next_request_id(&mut c), 3);
}

#[test]
fn length_prefix_is_big_endian() {
    assert_eq!(length_prefix(14).unwrap(), vec![0, 0, 0, 14]);
    assert_eq!(length_prefix(0x01020304).unwrap(), vec![1, 2, 3, 4]);
    assert_eq!(frame_length(&[1, 2, 3, 4]), 0x01020304);
    assert_eq!(frame_length(&[0, 0, 1, 0, 99]), 256);
    let header = length_prefix(4294967295).unwrap();
    assert_eq!(frame_length(&header), 4294967295);
}

#[test]
fn oversized_payload_cannot_be_framed() {
    if usize::MAX as u64 > u32::MAX as u64 {
        assert_eq!(length_prefix(4294967296usize as usize).unwrap_err(), FrameError::PayloadTooLarge);
    }
}

#[test]
fn frame_buffer_checks() {
    assert_eq!(check_prefix_room(3), Err(FrameError::BufferTooSmallForPrefix));
    assert_eq!(check_prefix_room(4), Ok(()));
    assert_eq!(check_payload_room(1025, 1024), Err(FrameError::BufferTooSmall));
    assert_eq!(check_payload_room(1024, 1024), Ok(1024));
    assert_eq!(check_payload_room(0, 4), Ok(0));
}

#[test]
fn string_payload_decoding() {
    assert_eq!(decode_string_payload(b"example.com:80".to_vec()).unwrap(), "example.com:80");
    assert_eq!(decode_string_payload("héllo".as_bytes().to_vec()).unwrap(), "héllo");
    assert_eq!(decode_string_payload(vec![]).unwrap_err(), FrameError::EmptyString);
    assert_eq!(decode_string_payload(vec![0xff, 0xfe]).unwrap_err(), FrameError::InvalidUtf8);
}

#[test]
fn sizes_in_binary_units() {
    assert_eq!(bytes_str(0), "0 B");
    assert_eq!(bytes_str(1024), "1 KiB");
    assert_eq!(bytes_str(1536), "1.50 KiB");
    assert_eq!(bytes_str(5862630359), "5.46 GiB");
}

#[test]
fn string_map_operations() {
    let mut m = StringMap::new();
    assert_eq!(m.len(), 0);
    m.insert("a".to_string(), "1".to_string());
    m.insert("b".to_string(), "2".to_string());
    m.insert("a".to_string(), "3".to_string());
    assert_eq!(m.len(), 2);
    assert_eq!(m.get("a").unwrap(), "3");
    assert_eq!(m.get("b").unwrap(), "2");
    assert!(m.get("c").is_none());
    assert!(m.contains_key("b"));
    m.remove("b");
    assert!(!m.contains_key("b"));
    assert_eq!(m.len(), 1);
    assert_eq!(m.entries().len(), 1);
    m.clear();
    assert_eq!(m.len(), 0);
}

#[test]
fn json_maps() {
    let mut m = StringMap::new();
    m.insert("target".to_string(), "a:1".to_string());
    m.insert("source_ip".to_string(), "1.2.3.4".to_string());
    let text = encode_map_as_json(&m).unwrap();
    let back = decode_json_as_map(&text).unwrap();
    assert_eq!(back.len(), 2);
    assert_eq!(back.get("target").unwrap(), "a:1");
    assert_eq!(back.get("source_ip").unwrap(), "1.2.3.4");
    let empty = decode_json_as_map("{}").unwrap();
    assert_eq!(empty.len(), 0);
    assert_eq!(decode_json_as_map("[1]").unwrap_err(), JsonError::NotAStringObject);
    assert_eq!(decode_json_as_map("{\"a\": 1}").unwrap_err(), JsonError::NotAStringObject);
}

#[test]
fn json_map_with_escapes_reads_back() {
    let mut m = StringMap::new();
    m.insert("quote\"key".to_string(), "line\nbreak\\".to_string());
    m.insert("\u{fc}n\u{ef}".to_string(), "{\"x\": 1}".to_string());
    let text = encode_map_as_json(&m).unwrap();
    let back = decode_json_as_map(&text).unwrap();
    assert_eq!(back.len(), 2);
    assert_eq!(back.get("quote\"key").unwrap(), "line\nbreak\\");
    assert_eq!(back.get("\u{fc}n\u{ef}").unwrap(), "{\"x\": 1}");
}

#[test]
fn extendable_attributes() {
    let mut e = Extendable::new(42u32);
    assert_eq!(*e.as_ref(), 42);
    assert_eq!(e.count_attributes(), 0);
    e.set_attribute("name".to_string(), "server".to_string());
    e.set_attribute("role".to_string(), "x".to_string());
    assert_eq!(e.get_attribute("name").unwrap(), "server");
    assert_eq!(e.count_attributes(), 2);
    e.delete_attribute("role".to_string());
    assert!(e.get_attribute("role").is_none());
    assert_eq!(e.get_attributes().len(), 1);
    e.clear_attributes();
    assert_eq!(e.count_attributes(), 0);
    let (data, attrs) = e.unwrap();
    assert_eq!(data, 42);
    assert_eq!(attrs.len(), 0);
}

#[test]
fn attribute_count_on_overwrite_and_absent_delete() {
    let mut e = Extendable::new(7u32);
    e.set_attribute("a".to_string(), "1".to_string());
    assert_eq!(e.count_attributes(), 1);
    e.set_attribute("a".to_string(), "2".to_string());
    assert_eq!(e.count_attributes(), 1);
    assert_eq!(e.get_attribute("a").unwrap(), "2");
    e.delete_attribute("missing".to_string());
    assert_eq!(e.count_attributes(), 1);
    e.delete_attribute("a".to_string());
    assert_eq!(e.count_attributes(), 0);
}

#[test]
fn connect_request_fields() {
    let m = build_connect_request("example.com:80", "10.0.0.1");
    assert_eq!(m.get("target").unwrap(), "example.com:80");
    assert_eq!(m.get("source_ip").unwrap(), "10.0.0.1");
    assert_eq!(m.len(), 2);
}

#[test]
fn connect_acknowledgement() {
    assert_eq!(build_connect_response(true), vec![0, 0, 0, 1, 1]);
    assert_eq!(build_connect_response(false), vec![0, 0, 0, 1, 0]);
    assert!(is_connect_success(&build_connect_response(true)[4..]));
    assert!(!is_connect_success(&build_connect_response(false)[4..]));
}

#[test]
fn request_data() {
    let mut r = Request::new(RequestType::Ping, 9);
    assert!(r.get_data("k").is_none());
    assert!(r.get_data_all().is_none());
    r.add_data("k".to_string(), "v".to_string());
    assert_eq!(r.get_data("k").unwrap(), "v");
    assert_eq!(r.get_data_all().unwrap().len(), 1);
    let ok = r.build_success_response();
    assert!(ok.is_ok() && !ok.is_error());
    assert_eq!(ok.request_id, 9);
    let err = r.build_error_response("nope");
    assert!(err.is_error());
    assert_eq!(err.get_error_message().unwrap(), "nope");
    let with = Request::new_with_data(RequestType::Connect, build_connect_request("t:1", "s"), 4);
    assert_eq!(with.get_data("target").unwrap(), "t:1");
}

#[test]
fn response_data() {
    let mut r = Response::success(3);
    assert!(r.get_response_data().is_none());
    r.add_data("a".to_string(), "b".to_string());
    assert_eq!(r.get_data("a").unwrap(), "b");
    assert_eq!(r.get_data_all().unwrap().len(), 1);
    assert_eq!(r.get_response_data().unwrap().len(), 1);
    let e = Response::new(4, false, Some("x".to_string()), None);
    assert!(e.is_error());
    assert!(e.get_data("a").is_none());
}

#[test]
fn request_constructors() {
    let p = create_ping_request(1);
    assert_eq!(p.request_type, RequestType::Ping);
    let m = create_stream_meta_request(2);
    assert_eq!(m.request_type, RequestType::GetStreamMetadata);
    assert_eq!(m.request_id, 2);
    let c = create_connect_request("h:1", "1.1.1.1", 3);
    assert_eq!(c.request_type, RequestType::Connect);
    assert_eq!(c.get_data("target").unwrap(), "h:1");
    assert_eq!(c.get_data("source_ip").unwrap(), "1.1.1.1");
}

fn allow_port_80() -> ACLFile {
    ACLFile {
        acl: vec![ACLRule {
            index: 0,
            priority: 0,
            action: ACLAction::Allow,
            from: vec!["0.0.0.0/0".to_string()],
            to: ACLTarget { hosts: vec![".*".to_string()], ports: vec![PortEntry::SinglePort(80)] },
        }],
    }
}

#[test]
fn server_answers_metadata_and_client_accepts_it() {
    let conn = ConnectionId::new(7);
    let stream = StreamId::new(7, 2);
    let req = create_stream_meta_request(11);
    match handle_server_request(&conn, &stream, &req, &build(), None) {
        ServerRequestStep::Reply(resp, step) => {
            assert_eq!(step, ServerNextStep::ContinueLoop);
            assert_eq!(resp.request_id, 11);
            assert_eq!(resp.get_data("connection_id").unwrap(), "conn-7");
            assert_eq!(resp.get_data("stream_id").unwrap(), "stream-7-2");
            assert_eq!(resp.get_data("build_branch").unwrap(), "main");
            let (c, s) = check_handshake_response(&resp, &build()).unwrap();
            assert_eq!(c.get(), "7");
            assert_eq!((s.connection_id(), s.stream_id()), (7, 2));
            let (c2, _) = parse_stream_metadata(&resp).unwrap();
            assert_eq!(c2.get(), "7");
            let other = BuildInfo { branch: "dev".to_string(), ..build() };
            assert_eq!(check_handshake_response(&resp, &other).unwrap_err(), HandshakeError::BuildBranchMismatch);
            let other = BuildInfo { time: "later".to_string(), ..build() };
            assert_eq!(check_handshake_response(&resp, &other).unwrap_err(), HandshakeError::BuildTimeMismatch);
            let other = BuildInfo { host: "elsewhere".to_string(), ..build() };
            assert_eq!(check_handshake_response(&resp, &other).unwrap_err(), HandshakeError::BuildHostMismatch);
        },
        ServerRequestStep::ConnectUpstream(_) => panic!("metadata request must be answered"),
    }
}

#[test]
fn handshake_errors() {
    let rejected = Response::new(1, false, Some("no".to_string()), None);
    assert_eq!(check_handshake_response(&rejected, &build()).unwrap_err(), HandshakeError::Rejected);
    let mut bad = Response::success(1);
    for (k, v) in [("build_branch", "main"), ("build_time", "2025-11-15"), ("build_host", "builder"), ("connection_id", "c-1"), ("stream_id", "stream-1-1")] {
        bad.add_data(k.to_string(), v.to_string());
    }
    assert_eq!(check_handshake_response(&bad, &build()).unwrap_err(), HandshakeError::BadConnectionId(IdError::InvalidFormat));
    bad.add_data("connection_id".to_string(), "conn-1".to_string());
    bad.add_data("stream_id".to_string(), "stream-1-x".to_string());
    assert_eq!(check_handshake_response(&bad, &build()).unwrap_err(), HandshakeError::BadStreamId(IdError::InvalidNumber));
}

#[test]
fn server_answers_ping() {
    let conn = ConnectionId::new(1);
    let stream = StreamId::new(1, 0);
    match handle_server_request(&conn, &stream, &create_ping_request(5), &build(), None) {
        ServerRequestStep::Reply(resp, step) => {
            assert!(resp.is_ok());
            assert_eq!(resp.request_id, 5);
            assert_eq!(step, ServerNextStep::ContinueLoop);
        },
        _ => panic!("ping must be answered"),
    }
}

#[test]
fn server_connect_follows_acl() {
    let conn = ConnectionId::new(1);
    let stream = StreamId::new(1, 0);
    let acl = allow_port_80();
    let allowed = create_connect_request("example.com:80", "1.2.3.4", 8);
    match handle_server_request(&conn, &stream, &allowed, &build(), Some(&acl)) {
        ServerRequestStep::ConnectUpstream(t) => assert_eq!(t, "example.com:80"),
        _ => panic!("allowed connect must go upstream"),
    }
    let denied = create_connect_request("example.com:81", "1.2.3.4", 9);
    match handle_server_request(&conn, &stream, &denied, &build(), Some(&acl)) {
        ServerRequestStep::Reply(resp, step) => {
            assert_eq!(step, ServerNextStep::Disconnect);
            assert_eq!(resp.get_error_message().unwrap(), "ACL denied");
            assert_eq!(resp.request_id, 9);
        },
        _ => panic!("denied connect must be refused"),
    }
    match handle_server_request(&conn, &stream, &denied, &build(), None) {
        ServerRequestStep::ConnectUpstream(t) => assert_eq!(t, "example.com:81"),
        _ => panic!("without a list every connect goes upstream"),
    }
}

#[test]
fn connect_completion() {
    let req = create_connect_request("h:1", "1.1.1.1", 3);
    let (ok, step) = complete_connect_request(&req, true);
    assert!(ok.is_ok());
    assert_eq!(step, ServerNextStep::StartDataPiping);
    let (err, step) = complete_connect_request(&req, false);
    assert_eq!(err.get_error_message().unwrap(), "TCP connection failed");
    assert_eq!(step, ServerNextStep::Disconnect);
}

#[test]
fn client_counters() {
    let mut s = ClientStats::new();
    increment_active_connections(&mut s);
    increment_active_connections(&mut s);
    decrement_active_connections(&mut s);
    increment_active_streams(&mut s);
    decrement_active_streams(&mut s);
    increment_active_client_connections(&mut s);
    decrement_active_client_connections(&mut s);
    decrement_active_client_connections(&mut s);
    get_total_sent_bytes_counter(&s).fetch_add(2048, Ordering::Relaxed);
    get_total_received_bytes_counter(&s).fetch_add(10, Ordering::Relaxed);
    let c = ClientStatsClone::get(&s);
    assert_eq!(c.total_connections, 2);
    assert_eq!(c.active_connections, 1);
    assert_eq!(c.total_streams, 1);
    assert_eq!(c.active_streams, 0);
    assert_eq!(c.total_client_connections, 1);
    assert_eq!(c.active_client_connections, usize::MAX);
    assert_eq!(c.total_sent_bytes, 2048);
    assert_eq!(c.total_received_bytes, 10);
    assert!(Arc::ptr_eq(&get_total_sent_bytes_counter(&s), &s.total_sent_bytes));
    let line = client_stats_line(&ClientStatsClone { active_client_connections: 0, ..c });
    assert_eq!(line, "Stats: TC=2,AC=1,TS=1,AS=0,TCC=1,ACC=0,SENT=2 KiB,RECV=10 B");
}

#[test]
fn server_counters() {
    let mut s = ServerStats::new();
    portal::server_stats::increment_active_connections(&mut s);
    portal::server_stats::increment_active_streams(&mut s);
    portal::server_stats::decrement_active_streams(&mut s);
    portal::server_stats::decrement_active_connections(&mut s);
    increment_active_upstream_connections(&mut s);
    increment_active_upstream_connections(&mut s);
    decrement_active_upstream_connections(&mut s);
    get_sent_bytes_counter(&s).fetch_add(5862630359usize, Ordering::Relaxed);
    get_received_bytes_counter(&s).fetch_add(1, Ordering::Relaxed);
    let c = ServerStatsClone::get(&s);
    assert_eq!((c.total_connections, c.active_connections), (1, 0));
    assert_eq!((c.total_streams, c.active_streams), (1, 0));
    assert_eq!((c.total_upstream_connections, c.active_upstream_connections), (2, 1));
    assert_eq!(server_stats_line(&c), "Stats: TC=1,AC=0,TS=1,AS=0,TUC=2,AUC=1,SENT=5.46 GiB,RECV=1 B");
}

#[test]
fn server_name_is_host_part() {
    assert_eq!(get_server_name("tunnel.abc.com:1741"), "tunnel.abc.com");
    assert_eq!(get_server_name("tunnel.abc.com"), "tunnel.abc.com");
    assert_eq!(get_server_name("[::1]:1741"), "[::1]");
}

#[test]
fn forward_spec_parts() {
    let (local, remote) = parse_forward_spec("0.0.0.0:8080@httpbin.org:80").unwrap();
    assert_eq!(local, "0.0.0.0:8080");
    assert_eq!(remote, "httpbin.org:80");
    assert_eq!(parse_forward_spec("0.0.0.0:8080").unwrap_err(), ForwardSpecError::InvalidForwardSpec);
    assert_eq!(parse_forward_spec("a@b@c").unwrap_err(), ForwardSpecError::InvalidForwardSpec);
    let (l, r) = parse_forward_spec("@").unwrap();
    assert_eq!((l.as_str(), r.as_str()), ("", ""));
}
