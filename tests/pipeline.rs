use net_sink::{
    build_requests, complete_request, finish_send, Batcher, ConnectDecision, EncodedEvent,
    EventStatus, FinalizerTable, IpAddress, Outcome, Readiness, ReconnectLoop, ServiceEvent,
    TcpConnectorConfig, TcpError, TcpServiceState,
};

/// A destination that refuses the first `refusals` connects.
struct FlakyDestination {
    refusals: usize,
    attempts: usize,
}

impl FlakyDestination {
    fn lookup(&self) -> Result<Vec<IpAddress>, String> {
        Ok(vec![IpAddress::V4(0x7f00_0001)])
    }

    fn connect(&mut self) -> Result<(), String> {
        self.attempts += 1;
        if self.attempts <= self.refusals {
            Err("connection refused".to_string())
        } else {
            Ok(())
        }
    }
}

#[test]
fn event_delivered_once_after_refused_connects() {
    let connector = TcpConnectorConfig::from_address("localhost".to_string(), 9000).as_connector();
    let mut dest = FlakyDestination { refusals: 2, attempts: 0 };
    let mut table = FinalizerTable::new();
    let mut batcher: Batcher<usize> = Batcher::new(10, 1000);

    let id = table.register();
    let payload = b"hits:1|c\n".to_vec();
    assert!(batcher.push(id, payload.len()).is_none());
    let batch = batcher.flush();
    assert_eq!(batch.len(), 1);

    let encoded: Vec<EncodedEvent> = batch
        .iter()
        .map(|(finalizer, _)| EncodedEvent { finalizer: *finalizer, encoded: Ok(payload.clone()) })
        .collect();
    let requests = build_requests(&encoded, 1000);
    assert_eq!(requests.len(), 1);
    let request = requests.into_iter().next().unwrap().ok().unwrap();

    let mut state: TcpServiceState<(), u64, ()> = TcpServiceState::new();
    let mut connection_errors = 0usize;
    let mut next_stream = 100u64;
    loop {
        match state.readiness() {
            Readiness::Ready => break,
            Readiness::StartConnect => {
                state = state.advance(ServiceEvent::ConnectStarted(())).ok().unwrap();
            }
            Readiness::AwaitConnect => {
                let mut reconnect = ReconnectLoop::new();
                let stream = loop {
                    let attempt = connector
                        .select_address(dest.lookup())
                        .and_then(|addr| {
                            dest.connect()
                                .map(|_| addr)
                                .map_err(|reason| TcpError::FailedToConnect { reason })
                        });
                    match reconnect.on_attempt(attempt) {
                        ConnectDecision::Established(_) => {
                            next_stream += 1;
                            break next_stream;
                        }
                        ConnectDecision::RetryAfter { .. } => connection_errors += 1,
                    }
                };
                state = state.advance(ServiceEvent::ConnectFinished(stream)).ok().unwrap();
            }
            Readiness::AwaitHandoff => panic!("nothing is in flight"),
        }
    }
    assert_eq!(connection_errors, 2);
    assert_eq!(dest.attempts, 3);

    let (sending, stream) = state.begin_call(()).ok().unwrap();
    let (back, result) = finish_send(stream, Ok(()), request.payload.len());
    let state = sending.advance(ServiceEvent::HandoffReceived(back)).ok().unwrap();
    assert!(matches!(state, TcpServiceState::Connected(101)));

    let report = complete_request(&mut table, &request, &result).unwrap();
    assert!(report.delivered);
    assert_eq!(report.events, 1);
    assert_eq!(table.status(id), Some(EventStatus::Resolved(Outcome::Delivered)));
    assert!(complete_request(&mut table, &request, &result).is_err());
    assert_eq!(table.status(id), Some(EventStatus::Resolved(Outcome::Delivered)));
}
