use bolt_session::handler::Handler;
use bolt_session::protocol::{Message, Params, Request, SessionError, Summary, TxState, Value};
use bolt_session::session::Connection;
use bolt_session::{DirectBoltConnector, Graph};

#[test]
fn connector_keeps_address_and_credentials() {
    let c = DirectBoltConnector::new("127.0.0.1:7687", "neo4j", "lemon-grade-55");
    assert_eq!(c.address, "127.0.0.1:7687");
    assert_eq!(c.user, "neo4j");
    assert_eq!(c.password, "lemon-grade-55");
    let g = Graph::new("127.0.0.1:7687", "neo4j", "lemon-grade-55");
    assert_eq!(g.address, "127.0.0.1:7687");
}

#[test]
fn one_flush_answers_every_enqueued_request_in_order() {
    // Two pipelined statements, one flush: four summaries for four queued
    // requests, and each streaming handler gets exactly its own records,
    // in arrival order, before its own summary.
    let mut c = Connection::new();
    let a = match c.run("A", Params::new(), Handler::streaming()) {
        Ok(i) => i,
        Err(_) => panic!("run must succeed on an open connection"),
    };
    let b = match c.run("B", Params::new(), Handler::streaming()) {
        Ok(i) => i,
        Err(_) => panic!("run must succeed on an open connection"),
    };
    assert_eq!(a, 1);
    assert_eq!(b, 3);
    let msgs = vec![
        Message::Summary(Summary::Success),
        Message::Record(vec![Value::Int(1)]),
        Message::Record(vec![Value::Int(2)]),
        Message::Summary(Summary::Success),
        Message::Summary(Summary::Success),
        Message::Record(vec![Value::Str(String::from("x"))]),
        Message::Summary(Summary::Success),
    ];
    assert_eq!(c.flush(msgs, true), Ok(()));
    assert_eq!(c.front, 4);
    assert!(!c.closed);
    match &c.entries[a].handler {
        Handler::Streaming { records, outcome } => {
            assert_eq!(records.len(), 2);
            assert_eq!(records[0], vec![Value::Int(1)]);
            assert_eq!(records[1], vec![Value::Int(2)]);
            assert_eq!(*outcome, Some(Summary::Success));
        }
        _ => panic!("expected a streaming handler"),
    }
    match &c.entries[b].handler {
        Handler::Streaming { records, outcome } => {
            assert_eq!(records.len(), 1);
            assert_eq!(records[0], vec![Value::Str(String::from("x"))]);
            assert_eq!(*outcome, Some(Summary::Success));
        }
        _ => panic!("expected a streaming handler"),
    }
}

#[test]
fn begin_then_commit_returns_to_idle() {
    let mut c = Connection::new();
    assert_eq!(c.tx, TxState::Idle);
    assert_eq!(c.begin(), Ok(()));
    assert_eq!(c.tx, TxState::Active);
    let idx = match c.commit() {
        Ok(i) => i,
        Err(_) => panic!("commit must succeed inside a transaction"),
    };
    assert_eq!(c.tx, TxState::Idle);
    match &c.entries[idx].request {
        Request::Run { statement, .. } => assert_eq!(statement, "COMMIT"),
        _ => panic!("the commit slot must hold a RUN request"),
    }
}

#[test]
fn begin_then_rollback_returns_to_idle() {
    let mut c = Connection::new();
    assert_eq!(c.begin(), Ok(()));
    assert_eq!(c.tx, TxState::Active);
    let idx = match c.rollback() {
        Ok(i) => i,
        Err(_) => panic!("rollback must succeed inside a transaction"),
    };
    assert_eq!(c.tx, TxState::Idle);
    match &c.entries[idx].request {
        Request::Run { statement, .. } => assert_eq!(statement, "ROLLBACK"),
        _ => panic!("the rollback slot must hold a RUN request"),
    }
}

#[test]
fn commit_while_idle_is_rejected() {
    let mut c = Connection::new();
    assert_eq!(c.commit(), Err(SessionError::InvalidTransactionState));
    assert_eq!(c.tx, TxState::Idle);
}

#[test]
fn rollback_while_idle_is_rejected() {
    let mut c = Connection::new();
    assert_eq!(c.rollback(), Err(SessionError::InvalidTransactionState));
}

#[test]
fn begin_while_active_is_rejected() {
    let mut c = Connection::new();
    assert_eq!(c.begin(), Ok(()));
    assert_eq!(c.begin(), Err(SessionError::InvalidTransactionState));
    assert_eq!(c.tx, TxState::Active);
}

#[test]
fn streaming_one_record_scenario() {
    // A streaming handler for "RETURN 1" with no parameters: exactly one
    // record holding 1, then a success summary.
    let mut c = Connection::new();
    let idx = match c.run("RETURN 1", Params::new(), Handler::streaming()) {
        Ok(i) => i,
        Err(_) => panic!("run must succeed on an open connection"),
    };
    match &c.entries[idx - 1].request {
        Request::Run { statement, parameters } => {
            assert_eq!(statement, "RETURN 1");
            assert_eq!(parameters.entries.len(), 0);
        }
        _ => panic!("the statement slot must hold a RUN request"),
    }
    assert!(matches!(c.entries[idx].request, Request::PullAll));
    let msgs = vec![
        Message::Summary(Summary::Success),
        Message::Record(vec![Value::Int(1)]),
        Message::Summary(Summary::Success),
    ];
    assert_eq!(c.flush(msgs, true), Ok(()));
    match &c.entries[idx].handler {
        Handler::Streaming { records, outcome } => {
            assert_eq!(records.len(), 1);
            assert_eq!(records[0], vec![Value::Int(1)]);
            assert_eq!(*outcome, Some(Summary::Success));
        }
        _ => panic!("expected a streaming handler"),
    }
}

#[test]
fn record_for_commit_handler_is_a_protocol_violation() {
    // The handler of a COMMIT must never observe a record: injecting one
    // closes the connection with a protocol violation.
    let mut c = Connection::new();
    assert_eq!(c.begin(), Ok(()));
    let idx = match c.commit() {
        Ok(i) => i,
        Err(_) => panic!("commit must succeed inside a transaction"),
    };
    assert_eq!(idx, 2);
    let msgs = vec![
        Message::Summary(Summary::Success),
        Message::Summary(Summary::Success),
        Message::Record(vec![Value::Int(1)]),
    ];
    assert_eq!(c.flush(msgs, true), Err(SessionError::ProtocolViolation));
    assert!(c.closed);
    // The commit's capture handler saw nothing.
    match &c.entries[idx].handler {
        Handler::Capture { summary } => assert_eq!(*summary, None),
        _ => panic!("the commit slot must hold a capture handler"),
    }
}

#[test]
fn transport_failure_mid_flush_fails_the_remaining_handlers() {
    // Three pending handlers, one real summary read before the transport
    // broke: the other two receive synthetic failure summaries and the
    // connection rejects any further enqueue.
    let mut c = Connection::new();
    assert_eq!(c.enqueue(Request::DiscardAll, Handler::capture()), Ok(0));
    assert_eq!(c.enqueue(Request::DiscardAll, Handler::capture()), Ok(1));
    assert_eq!(c.enqueue(Request::DiscardAll, Handler::capture()), Ok(2));
    let msgs = vec![Message::Summary(Summary::Success)];
    assert_eq!(c.flush(msgs, false), Err(SessionError::TransportFailure));
    assert!(c.closed);
    match &c.entries[0].handler {
        Handler::Capture { summary } => assert_eq!(*summary, Some(Summary::Success)),
        _ => panic!("expected a capture handler"),
    }
    match &c.entries[1].handler {
        Handler::Capture { summary } => assert_eq!(*summary, Some(Summary::TransportFailure)),
        _ => panic!("expected a capture handler"),
    }
    match &c.entries[2].handler {
        Handler::Capture { summary } => assert_eq!(*summary, Some(Summary::TransportFailure)),
        _ => panic!("expected a capture handler"),
    }
    assert_eq!(
        c.enqueue(Request::DiscardAll, Handler::capture()),
        Err(SessionError::ConnectionClosed)
    );
}

#[test]
fn reset_returns_to_idle_and_empties_the_queue() {
    let mut c = Connection::new();
    assert_eq!(c.begin(), Ok(()));
    let run_idx = match c.run("CREATE (n)", Params::new(), Handler::streaming()) {
        Ok(i) => i,
        Err(_) => panic!("run must succeed on an open connection"),
    };
    assert_eq!(run_idx, 3);
    assert_eq!(c.tx, TxState::Active);
    let idx = match c.reset() {
        Ok(i) => i,
        Err(_) => panic!("reset must succeed on an open connection"),
    };
    // Everything pending was dropped; only the RESET request remains.
    assert_eq!(idx, 0);
    assert_eq!(c.tx, TxState::Idle);
    assert_eq!(c.entries.len(), 1);
    assert!(matches!(c.entries[0].request, Request::Reset));
    assert_eq!(c.flush(vec![Message::Summary(Summary::Success)], true), Ok(()));
    match &c.entries[idx].handler {
        Handler::Capture { summary } => assert_eq!(*summary, Some(Summary::Success)),
        _ => panic!("the reset slot must hold a capture handler"),
    }
}

#[test]
fn reset_after_protocol_violation_still_cleans_local_state() {
    let mut c = Connection::new();
    assert_eq!(c.begin(), Ok(()));
    let msgs = vec![
        Message::Summary(Summary::Success),
        Message::Summary(Summary::Success),
        Message::Summary(Summary::Success),
    ];
    // One summary more than there are outstanding requests: ordering lost.
    assert_eq!(c.flush(msgs, true), Err(SessionError::ProtocolViolation));
    assert!(c.closed);
    // Reset still forces Idle and an empty queue, though no RESET request
    // can be queued on the closed connection.
    assert_eq!(c.reset(), Err(SessionError::ConnectionClosed));
    assert_eq!(c.tx, TxState::Idle);
    assert_eq!(c.entries.len(), c.front);
}

#[test]
fn reset_twice_in_a_row_is_safe() {
    let mut c = Connection::new();
    assert_eq!(c.begin(), Ok(()));
    let first = c.reset();
    assert_eq!(first, Ok(0));
    assert_eq!(c.tx, TxState::Idle);
    let second = c.reset();
    assert_eq!(second, Ok(0));
    assert_eq!(c.tx, TxState::Idle);
    // The queue holds exactly one RESET request after each call.
    assert_eq!(c.entries.len(), 1);
    assert!(matches!(c.entries[0].request, Request::Reset));
    assert_eq!(c.flush(vec![Message::Summary(Summary::Success)], true), Ok(()));
    assert_eq!(c.tx, TxState::Idle);
}

#[test]
fn server_failure_is_not_fatal() {
    let mut c = Connection::new();
    let idx = match c.run("WRONG", Params::new(), Handler::streaming()) {
        Ok(i) => i,
        Err(_) => panic!("run must succeed on an open connection"),
    };
    let msgs = vec![
        Message::Summary(Summary::Success),
        Message::Summary(Summary::ServerFailure {
            code: String::from("Neo.ClientError.Statement.SyntaxError"),
            message: String::from("Invalid input"),
        }),
    ];
    assert_eq!(c.flush(msgs, true), Ok(()));
    assert!(!c.closed);
    match &c.entries[idx].handler {
        Handler::Streaming { records, outcome } => {
            assert_eq!(records.len(), 0);
            assert!(matches!(outcome, Some(Summary::ServerFailure { .. })));
        }
        _ => panic!("expected a streaming handler"),
    }
    // The connection stays usable for the reset the caller now owes.
    assert_eq!(c.reset(), Ok(2));
}

#[test]
fn incomplete_batch_is_a_protocol_violation() {
    let mut c = Connection::new();
    assert_eq!(c.begin(), Ok(()));
    // The transport claims the batch is complete after one summary, yet two
    // requests were outstanding.
    let msgs = vec![Message::Summary(Summary::Success)];
    assert_eq!(c.flush(msgs, true), Err(SessionError::ProtocolViolation));
    assert!(c.closed);
}

#[test]
fn flush_with_nothing_pending_is_a_no_op() {
    let mut c = Connection::new();
    assert_eq!(c.flush(vec![], true), Ok(()));
    assert!(!c.closed);
    assert_eq!(c.front, 0);
}

#[test]
fn operations_on_a_closed_connection_are_rejected() {
    let mut c = Connection::new();
    assert_eq!(c.enqueue(Request::DiscardAll, Handler::capture()), Ok(0));
    assert_eq!(c.flush(vec![], false), Err(SessionError::TransportFailure));
    assert!(c.closed);
    assert_eq!(c.begin(), Err(SessionError::ConnectionClosed));
    assert_eq!(
        c.run("RETURN 1", Params::new(), Handler::streaming()),
        Err(SessionError::ConnectionClosed)
    );
    assert_eq!(c.commit(), Err(SessionError::ConnectionClosed));
    assert_eq!(c.rollback(), Err(SessionError::ConnectionClosed));
    assert_eq!(c.flush(vec![], true), Err(SessionError::ConnectionClosed));
}

#[test]
fn begin_queues_silent_control_requests() {
    let mut c = Connection::new();
    assert_eq!(c.begin(), Ok(()));
    assert_eq!(c.entries.len(), 2);
    match &c.entries[0].request {
        Request::Run { statement, parameters } => {
            assert_eq!(statement, "BEGIN");
            assert_eq!(parameters.entries.len(), 0);
        }
        _ => panic!("the begin slot must hold a RUN request"),
    }
    assert!(matches!(c.entries[0].handler, Handler::Silent));
    assert!(matches!(c.entries[1].request, Request::DiscardAll));
    assert!(matches!(c.entries[1].handler, Handler::Silent));
}
