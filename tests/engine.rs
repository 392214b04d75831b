use net_sink::{
    build_requests, complete_request, drop_failed, finish_send, healthcheck_outcome, Batcher,
    BuildError, ConnectDecision, DeliveryReport, EncodeFailure, EncodedEvent, EventStatus,
    ExponentialBackoff, FinalizeError, FinalizerTable, IpAddress, Outcome, Readiness,
    ReconnectLoop, Request, ServiceEvent, SocketAddress, TcpConnectorConfig, TcpError,
    TcpServiceState,
};

type State = TcpServiceState<&'static str, u32, &'static str>;

fn ok_item(id: usize, bytes: &[u8]) -> EncodedEvent {
    EncodedEvent { finalizer: id, encoded: Ok(bytes.to_vec()) }
}

fn bad_item(id: usize) -> EncodedEvent {
    EncodedEvent {
        finalizer: id,
        encoded: Err(EncodeFailure { message: "bad metric".to_string(), code: "encode".to_string() }),
    }
}

fn sizes(batch: &[(u32, usize)]) -> Vec<usize> {
    batch.iter().map(|p| p.1).collect()
}

#[test]
fn backoff_sequence_is_clamped() {
    let mut b = ExponentialBackoff::from_millis(2).factor(250).max_delay(60_000);
    let got: Vec<u64> = (0..6).map(|_| b.next()).collect();
    assert_eq!(got, vec![2, 500, 60_000, 60_000, 60_000, 60_000]);
}

#[test]
fn backoff_never_decreases_nor_exceeds_cap() {
    let mut b = ExponentialBackoff::from_millis(3).factor(7).max_delay(10_000);
    let mut last = 0u64;
    for _ in 0..40 {
        let d = b.next();
        assert!(d <= 10_000);
        assert!(d >= last);
        last = d;
    }
    assert_eq!(last, 10_000);
}

#[test]
fn backoff_saturates_without_cap() {
    let mut b = ExponentialBackoff::from_millis(u64::MAX / 2).factor(4);
    assert_eq!(b.next(), u64::MAX / 2);
    assert_eq!(b.next(), u64::MAX);
    assert_eq!(b.next(), u64::MAX);
}

#[test]
fn batcher_splits_on_bytes() {
    let mut b: Batcher<u32> = Batcher::new(2, 10);
    let mut out: Vec<Vec<(u32, usize)>> = Vec::new();
    for (i, s) in [4usize, 4, 4].iter().enumerate() {
        if let Some(batch) = b.push(i as u32, *s) {
            out.push(batch);
        }
    }
    let rest = b.flush();
    if !rest.is_empty() {
        out.push(rest);
    }
    assert_eq!(out.len(), 2);
    assert_eq!(sizes(&out[0]), vec![4, 4]);
    assert_eq!(sizes(&out[1]), vec![4]);
}

#[test]
fn batcher_keeps_bounds_and_order() {
    let input: Vec<usize> = vec![3, 9, 1, 1, 10, 2, 8, 5, 5, 1, 7, 3];
    let mut b: Batcher<u32> = Batcher::new(2, 10);
    let mut out: Vec<Vec<(u32, usize)>> = Vec::new();
    for (i, s) in input.iter().enumerate() {
        if let Some(batch) = b.push(i as u32, *s) {
            out.push(batch);
        }
    }
    let rest = b.flush();
    if !rest.is_empty() {
        out.push(rest);
    }
    for batch in &out {
        assert!(!batch.is_empty() && batch.len() <= 2);
        assert!(batch.iter().map(|p| p.1).sum::<usize>() <= 10);
    }
    let ids: Vec<u32> = out.iter().flatten().map(|p| p.0).collect();
    assert_eq!(ids, (0..input.len() as u32).collect::<Vec<u32>>());
}

#[test]
fn batcher_closes_on_count_and_lets_oversized_item_alone() {
    let mut b: Batcher<u32> = Batcher::new(3, 10);
    assert!(b.push(0, 1).is_none());
    assert!(b.push(1, 1).is_none());
    let full = b.push(2, 1).unwrap();
    assert_eq!(full.len(), 3);
    assert!(b.is_empty());
    assert!(b.push(3, 25).is_none());
    let closed = b.push(4, 1).unwrap();
    assert_eq!(sizes(&closed), vec![25]);
    assert_eq!(sizes(&b.flush()), vec![1]);
    assert!(b.flush().is_empty());
}

#[test]
fn new_service_refuses_call() {
    let s: State = TcpServiceState::new();
    assert!(matches!(s.readiness(), Readiness::StartConnect));
    match s.begin_call("rx") {
        Err((back, TcpError::ProtocolViolation)) => assert!(matches!(back, TcpServiceState::Disconnected)),
        _ => panic!("a call before readiness must be a protocol violation"),
    }
}

#[test]
fn call_while_connecting_or_sending_is_violation() {
    let s: State = TcpServiceState::Connecting("fut");
    assert!(matches!(s.begin_call("rx"), Err((_, TcpError::ProtocolViolation))));
    let s: State = TcpServiceState::Sending("rx0");
    assert!(matches!(s.begin_call("rx"), Err((_, TcpError::ProtocolViolation))));
}

#[test]
fn failed_send_forces_fresh_connect() {
    let s: State = TcpServiceState::new();
    let s = s.advance(ServiceEvent::ConnectStarted("fut")).ok().unwrap();
    assert!(matches!(s.readiness(), Readiness::AwaitConnect));
    let s = s.advance(ServiceEvent::ConnectFinished(1)).ok().unwrap();
    assert!(matches!(s.readiness(), Readiness::Ready));
    let (s, stream) = s.begin_call("rx").ok().unwrap();
    assert_eq!(stream, 1);
    assert!(matches!(s.readiness(), Readiness::AwaitHandoff));
    let (back, result) = finish_send(stream, Err("broken pipe".to_string()), 5);
    assert!(back.is_none());
    assert!(matches!(result, Err(TcpError::FailedToSend { .. })));
    let s = s.advance(ServiceEvent::HandoffReceived(back)).ok().unwrap();
    assert!(matches!(s, TcpServiceState::Disconnected));
    let s = match s.begin_call("rx2") {
        Err((back, TcpError::ProtocolViolation)) => back,
        _ => panic!("no call before a fresh connect"),
    };
    let s = s.advance(ServiceEvent::ConnectStarted("fut2")).ok().unwrap();
    let s = s.advance(ServiceEvent::ConnectFinished(2)).ok().unwrap();
    let (_, stream) = s.begin_call("rx3").ok().unwrap();
    assert_eq!(stream, 2);
}

#[test]
fn successful_send_returns_connection() {
    let s: State = TcpServiceState::Connected(7);
    let (s, stream) = s.begin_call("rx").ok().unwrap();
    let (back, result) = finish_send(stream, Ok(()), 12);
    assert_eq!(back, Some(7));
    assert!(matches!(result, Ok(12)));
    let s = s.advance(ServiceEvent::HandoffReceived(back)).ok().unwrap();
    assert!(matches!(s, TcpServiceState::Connected(7)));
}

#[test]
fn closed_handoff_is_fatal() {
    let s: State = TcpServiceState::Sending("rx");
    assert!(matches!(s.advance(ServiceEvent::HandoffClosed), Err(TcpError::ServiceStreamChannelClosed)));
    let s: State = TcpServiceState::Connected(1);
    assert!(matches!(s.advance(ServiceEvent::ConnectFinished(2)), Err(TcpError::ProtocolViolation)));
}

#[test]
fn builder_isolates_failed_item() {
    let items = vec![ok_item(0, b"a:1|c\n"), bad_item(1), ok_item(2, b"b:2|c\n")];
    let out = build_requests(&items, 1000);
    assert_eq!(out.len(), 3);
    let ok: Vec<&Request> = out.iter().filter_map(|r| r.as_ref().ok()).collect();
    let errs: Vec<&BuildError> = out.iter().filter_map(|r| r.as_ref().err()).collect();
    assert_eq!(ok.len(), 2);
    assert_eq!(errs.len(), 1);
    assert_eq!(ok[0].finalizers, vec![0]);
    assert_eq!(ok[1].finalizers, vec![2]);
    assert_eq!(errs[0].dropped_events, 1);
    assert_eq!(errs[0].finalizers, vec![1]);
    assert_eq!(errs[0].message, "bad metric");
    let accounted: usize = ok.iter().map(|r| r.events).sum::<usize>() + errs[0].dropped_events;
    assert_eq!(accounted, 3);
}

#[test]
fn builder_splits_on_payload_size() {
    let items = vec![ok_item(0, b"aaaa"), ok_item(1, b"bbbb"), ok_item(2, b"cc"), ok_item(3, b"dddddddddd")];
    let out = build_requests(&items, 8);
    let reqs: Vec<&Request> = out.iter().map(|r| r.as_ref().ok().unwrap()).collect();
    assert_eq!(reqs.len(), 3);
    assert_eq!(reqs[0].payload, b"aaaabbbb".to_vec());
    assert_eq!(reqs[0].events, 2);
    assert_eq!(reqs[0].byte_size, 8);
    assert_eq!(reqs[1].payload, b"cc".to_vec());
    assert_eq!(reqs[2].payload, b"dddddddddd".to_vec());
    assert_eq!(reqs[2].finalizers, vec![3]);
    assert!(build_requests(&Vec::new(), 8).is_empty());
}

#[test]
fn finalizers_resolve_once() {
    let mut t = FinalizerTable::new();
    let a = t.register();
    let b = t.register();
    let req = Request { payload: b"x".to_vec(), finalizers: vec![a, b], events: 2, byte_size: 1 };
    let report = complete_request(&mut t, &req, &Ok(1)).unwrap();
    assert_eq!(report, DeliveryReport { events: 2, byte_size: 1, delivered: true });
    assert_eq!(t.status(a), Some(EventStatus::Resolved(Outcome::Delivered)));
    assert_eq!(complete_request(&mut t, &req, &Ok(1)), Err(FinalizeError::NotPending));
    assert_eq!(t.status(b), Some(EventStatus::Resolved(Outcome::Delivered)));
    assert_eq!(t.status(9), None);
}

#[test]
fn failed_request_errors_its_events() {
    let mut t = FinalizerTable::new();
    let a = t.register();
    let req = Request { payload: b"x".to_vec(), finalizers: vec![a], events: 1, byte_size: 1 };
    let failed: Result<usize, TcpError> = Err(TcpError::FailedToSend { reason: "reset".to_string() });
    let report = complete_request(&mut t, &req, &failed).unwrap();
    assert!(!report.delivered);
    assert_eq!(t.status(a), Some(EventStatus::Resolved(Outcome::Errored)));
}

#[test]
fn resolution_is_all_or_nothing() {
    let mut t = FinalizerTable::new();
    let a = t.register();
    let b = t.register();
    assert_eq!(t.resolve(&vec![a, a], Outcome::Dropped), Err(FinalizeError::NotPending));
    assert_eq!(t.resolve(&vec![a, 5], Outcome::Dropped), Err(FinalizeError::NotPending));
    assert_eq!(t.status(a), Some(EventStatus::Pending));
    let err = BuildError { message: "m".to_string(), code: "c".to_string(), dropped_events: 1, finalizers: vec![b] };
    assert_eq!(drop_failed(&mut t, &err), Ok(1));
    assert_eq!(t.status(b), Some(EventStatus::Resolved(Outcome::Dropped)));
    assert_eq!(t.len(), 2);
}

#[test]
fn select_address_takes_first() {
    let c = TcpConnectorConfig::from_address("example.net".to_string(), 8125).as_connector();
    let ips = vec![IpAddress::V6(1), IpAddress::V4(0x7f00_0001)];
    let addr = c.select_address(Ok(ips)).ok().unwrap();
    assert_eq!(addr, SocketAddress { ip: IpAddress::V6(1), port: 8125 });
    assert!(!addr.is_ipv4());
    assert!(matches!(c.select_address(Ok(Vec::new())), Err(TcpError::NoAddresses)));
    match c.select_address(Err("nxdomain".to_string())) {
        Err(TcpError::FailedToResolve { reason }) => assert_eq!(reason, "nxdomain"),
        _ => panic!("lookup failure must be reported"),
    }
}

#[test]
fn reconnect_waits_grow_until_success() {
    let mut r = ReconnectLoop::new();
    let mut delays = Vec::new();
    for _ in 0..4 {
        match r.on_attempt(Err(TcpError::FailedToConnect { reason: "refused".to_string() })) {
            ConnectDecision::RetryAfter { delay_ms, error } => {
                assert!(matches!(error, TcpError::FailedToConnect { .. }));
                delays.push(delay_ms);
            }
            ConnectDecision::Established(_) => panic!("a failure never ends the loop"),
        }
    }
    assert_eq!(delays, vec![2, 500, 60_000, 60_000]);
    let addr = SocketAddress { ip: IpAddress::V4(1), port: 1 };
    assert!(matches!(r.on_attempt(Ok(addr)), ConnectDecision::Established(a) if a == addr));
}

#[test]
fn healthcheck_maps_outcome() {
    let addr = SocketAddress { ip: IpAddress::V4(1), port: 1 };
    assert!(healthcheck_outcome(Ok(addr)).is_ok());
    assert!(matches!(healthcheck_outcome(Err(TcpError::NoAddresses)), Err(TcpError::NoAddresses)));
}

#[test]
fn generate_config() {
    let config = TcpConnectorConfig::from_address("127.0.0.1".to_string(), 6650);
    let connector = config.as_connector();
    assert_eq!(connector.host(), "127.0.0.1");
    assert_eq!(connector.port(), 6650);
    assert_eq!(connector.send_buffer_size(), None);
    let tuned = config.with_send_buffer_size(Some(65536)).as_connector();
    assert_eq!(tuned.send_buffer_size(), Some(65536));
    assert_eq!(tuned.host(), "127.0.0.1");
}
