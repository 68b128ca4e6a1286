use bytes::Bytes;
use stealer::action::{
    Accepted, Action, AgentError, Command, Event, HandlerHttpRequest, StealerCommand, Step,
};
use stealer::filter::{FilterEntry, HttpFilter};
use stealer::filter_task::{ErrorResponse, FilterAction, FilterTask, TaskPhase};
use stealer::protocol::{
    DaemonTcp, HttpHeader, HttpRequest, HttpResponse, IpAddress, NewTcpConnection, ParsedRequest,
    SocketAddress, StealType, SubscribeError, TcpClose, TcpData,
};
use stealer::stealer::TcpConnectionStealer;
use stealer::subscriptions::PortSubscription;
use stealer::version::ProtocolVersion;

fn accepted(port: u16) -> Accepted {
    Accepted {
        peer: SocketAddress { ip: IpAddress::V4(1, 2, 3, 4), port: 55555 },
        original_destination: SocketAddress { ip: IpAddress::V4(10, 0, 0, 7), port },
        local_address: IpAddress::V4(127, 0, 0, 1),
    }
}

fn header(name: &str, value: &str) -> HttpHeader {
    HttpHeader { name: name.to_string(), value: value.to_string() }
}

fn get(headers: Vec<HttpHeader>) -> ParsedRequest {
    ParsedRequest { method: "GET".to_string(), path: "/".to_string(), headers, body: Vec::new() }
}

fn ok_response(connection_id: u64, request_id: u64) -> HttpResponse {
    HttpResponse {
        connection_id,
        request_id,
        port: 80,
        status: 200,
        headers: Vec::new(),
        body: b"ok".to_vec(),
    }
}

fn subscribed(stealer: &mut TcpConnectionStealer, client: u64, steal: StealType) {
    let port = match &steal {
        StealType::All(port) => *port,
        StealType::FilteredHttp(port, _) => *port,
        StealType::FilteredHttpEx(port, _) => *port,
    };
    let actions = stealer.port_subscribe(client, steal);
    if actions == vec![Action::AddRedirection { port, client_id: client }] {
        let answer = stealer.redirection_added(client, port);
        assert_eq!(
            answer,
            vec![Action::Send { client_id: client, message: DaemonTcp::SubscribeResult(Ok(())) }]
        );
    } else {
        assert_eq!(
            actions,
            vec![Action::Send { client_id: client, message: DaemonTcp::SubscribeResult(Ok(())) }]
        );
    }
}

#[test]
fn unfiltered_passthrough() {
    let mut stealer = TcpConnectionStealer::new();
    stealer.new_client(1, ProtocolVersion::new(1, 2, 1));
    let actions = stealer.port_subscribe(1, StealType::All(8080));
    assert_eq!(actions, vec![Action::AddRedirection { port: 8080, client_id: 1 }]);
    let actions = stealer.redirection_added(1, 8080);
    assert_eq!(
        actions,
        vec![Action::Send { client_id: 1, message: DaemonTcp::SubscribeResult(Ok(())) }]
    );

    let actions = stealer.incoming_connection(accepted(8080)).unwrap();
    assert_eq!(
        actions,
        vec![
            Action::OpenConnection { connection_id: 0 },
            Action::Send {
                client_id: 1,
                message: DaemonTcp::NewConnection(NewTcpConnection {
                    connection_id: 0,
                    remote_address: IpAddress::V4(1, 2, 3, 4),
                    destination_port: 8080,
                    source_port: 55555,
                    local_address: IpAddress::V4(127, 0, 0, 1),
                }),
            },
        ]
    );
    assert_eq!(stealer.connection_owner(0), Some(1));
    assert_eq!(stealer.connections_of(1), vec![0]);

    let actions = stealer.forward_incoming_tcp_data(0, Some(Ok(Bytes::from_static(b"hello"))));
    assert_eq!(
        actions,
        vec![Action::Send {
            client_id: 1,
            message: DaemonTcp::Data(TcpData { connection_id: 0, bytes: b"hello".to_vec() }),
        }]
    );

    let actions = stealer.forward_data(TcpData { connection_id: 0, bytes: b"hi".to_vec() });
    assert_eq!(actions, vec![Action::Write(TcpData { connection_id: 0, bytes: b"hi".to_vec() })]);

    let actions = stealer.forward_incoming_tcp_data(0, None);
    assert_eq!(
        actions,
        vec![
            Action::Send { client_id: 1, message: DaemonTcp::Close(TcpClose { connection_id: 0 }) },
            Action::CloseConnection { connection_id: 0 },
        ]
    );
    assert_eq!(stealer.connection_owner(0), None);
    assert!(!stealer.is_allocated(0));
    assert!(stealer.connections_of(1).is_empty());
    assert!(stealer.forward_incoming_tcp_data(0, None).is_empty());
}

#[test]
fn filtered_http_match() {
    let mut stealer = TcpConnectionStealer::new();
    stealer.new_client(1, ProtocolVersion::new(1, 2, 1));
    subscribed(&mut stealer, 1, StealType::FilteredHttp(80, "^x-test$".to_string()));

    let actions = stealer.incoming_connection(accepted(80)).unwrap();
    assert_eq!(actions.len(), 1);
    let (connection_id, destination, filters) = match actions.into_iter().next().unwrap() {
        Action::SpawnFilter { connection_id, destination, filters } => {
            (connection_id, destination, filters)
        }
        other => panic!("unexpected action {:?}", other),
    };
    assert_eq!(connection_id, 0);
    assert_eq!(destination, SocketAddress { ip: IpAddress::V4(127, 0, 0, 1), port: 80 });
    assert_eq!(filters.len(), 1);
    assert_eq!(filters[0].client_id, 1);

    let mut task = FilterTask::new(connection_id, 80, filters);
    let actions = task.request(get(vec![header("X-Test", "1")]));
    let expected = HttpRequest {
        connection_id: 0,
        request_id: 0,
        port: 80,
        internal_request: get(vec![header("X-Test", "1")]),
    };
    assert_eq!(
        actions,
        vec![FilterAction::Forward(HandlerHttpRequest { client_id: 1, request: expected.clone() })]
    );
    assert_eq!(task.phase(), TaskPhase::Awaiting(0));

    let forwarded = match actions.into_iter().next().unwrap() {
        FilterAction::Forward(request) => request,
        other => panic!("unexpected action {:?}", other),
    };
    let actions = stealer.forward_stolen_http_request(Some(forwarded)).unwrap();
    assert_eq!(
        actions,
        vec![
            Action::AwaitResponse { connection_id: 0, request_id: 0 },
            Action::Send { client_id: 1, message: DaemonTcp::HttpRequest(expected) },
        ]
    );
    assert!(stealer.awaits_response(0, 0));
    assert_eq!(stealer.clients_of(0), vec![1]);

    let actions = stealer.http_response(ok_response(0, 0));
    assert_eq!(actions, vec![Action::Respond(ok_response(0, 0))]);
    assert!(!stealer.awaits_response(0, 0));

    let actions = task.response(Some(ok_response(0, 0)), true);
    assert_eq!(actions, vec![FilterAction::WriteResponse(ok_response(0, 0))]);
    assert_eq!(task.phase(), TaskPhase::Idle);
}

#[test]
fn filtered_http_no_match() {
    let mut stealer = TcpConnectionStealer::new();
    stealer.new_client(1, ProtocolVersion::new(1, 2, 1));
    subscribed(&mut stealer, 1, StealType::FilteredHttp(80, "^x-test$".to_string()));
    let filters = match stealer.subscription(80) {
        Some(PortSubscription::Filtered(filters)) => filters.clone(),
        other => panic!("unexpected subscription {:?}", other),
    };
    let mut task = FilterTask::new(4, 80, filters);
    let actions = task.request(get(Vec::new()));
    assert_eq!(
        actions,
        vec![
            FilterAction::WriteError(ErrorResponse::Unhandled),
            FilterAction::CloseSocket,
            FilterAction::NotifyClosed(4),
        ]
    );
    assert_eq!(task.phase(), TaskPhase::Closed);
    assert!(task.request(get(vec![header("X-Test", "1")])).is_empty());
    assert!(task.end().is_empty());
}

#[test]
fn multi_client_filter_priority() {
    let mut stealer = TcpConnectionStealer::new();
    stealer.new_client(1, ProtocolVersion::new(1, 2, 1));
    stealer.new_client(2, ProtocolVersion::new(1, 2, 1));
    subscribed(&mut stealer, 1, StealType::FilteredHttp(80, "x-t".to_string()));
    subscribed(&mut stealer, 2, StealType::FilteredHttp(80, "test".to_string()));

    let actions = stealer.incoming_connection(accepted(80)).unwrap();
    let filters = match actions.into_iter().next().unwrap() {
        Action::SpawnFilter { filters, .. } => filters,
        other => panic!("unexpected action {:?}", other),
    };
    assert_eq!(filters.iter().map(|entry| entry.client_id).collect::<Vec<u64>>(), vec![1, 2]);

    let mut task = FilterTask::new(0, 80, filters);
    let actions = task.request(get(vec![header("X-Test", "1")]));
    assert_eq!(actions.len(), 1);
    match &actions[0] {
        FilterAction::Forward(request) => assert_eq!(request.client_id, 1),
        other => panic!("unexpected action {:?}", other),
    }
}

#[test]
fn client_disconnect_mid_connection() {
    let mut stealer = TcpConnectionStealer::new();
    stealer.new_client(1, ProtocolVersion::new(1, 2, 1));
    subscribed(&mut stealer, 1, StealType::All(80));
    stealer.incoming_connection(accepted(80)).unwrap();
    stealer.incoming_connection(accepted(80)).unwrap();
    assert_eq!(stealer.connections_of(1), vec![0, 1]);

    let actions =
        stealer.handle_command(StealerCommand { client_id: 1, command: Command::ClientClose });
    assert_eq!(
        actions,
        vec![
            Action::RemoveRedirection { port: 80 },
            Action::CloseConnection { connection_id: 0 },
            Action::CloseConnection { connection_id: 1 },
            Action::DropClient { client_id: 1 },
        ]
    );
    assert!(stealer.subscription(80).is_none());
    assert!(!stealer.has_client(1));
    assert!(!stealer.is_allocated(0));
    assert!(!stealer.is_allocated(1));
    assert_eq!(stealer.connection_owner(0), None);

    let actions = stealer.incoming_connection(accepted(80)).unwrap();
    assert!(actions.is_empty());
    assert!(!stealer.is_allocated(0));
}

#[test]
fn bad_regex() {
    let mut stealer = TcpConnectionStealer::new();
    stealer.new_client(1, ProtocolVersion::new(1, 2, 1));
    let actions = stealer.port_subscribe(1, StealType::FilteredHttp(80, "(unclosed".to_string()));
    let message = fancy_regex::Regex::new("(?i)(unclosed").unwrap_err().to_string();
    assert!(!message.is_empty());
    assert_eq!(
        actions,
        vec![Action::Send {
            client_id: 1,
            message: DaemonTcp::SubscribeResult(Err(SubscribeError::BadHttpFilterRegex(
                "(unclosed".to_string(),
                message,
            ))),
        }]
    );
    assert!(stealer.subscription(80).is_none());
}

#[test]
fn id_allocation_at_cap() {
    let mut stealer = TcpConnectionStealer::new();
    stealer.new_client(1, ProtocolVersion::new(1, 2, 1));
    subscribed(&mut stealer, 1, StealType::All(80));
    for expected in 0..100u64 {
        let actions = stealer.incoming_connection(accepted(80)).unwrap();
        assert_eq!(actions[0], Action::OpenConnection { connection_id: expected });
    }
    assert_eq!(stealer.incoming_connection(accepted(80)), Err(AgentError::ConnectionLimitReached));
    assert_eq!(stealer.connections_of(1).len(), 100);
    assert!(!stealer.is_allocated(100));
    assert_eq!(stealer.connection_owner(100), None);
    assert_eq!(
        stealer.step(Event::Accept(Some(accepted(80)))),
        Step::Refused(AgentError::ConnectionLimitReached)
    );

    let actions = stealer.connection_unsubscribe(37);
    assert_eq!(actions, vec![Action::CloseConnection { connection_id: 37 }]);
    let actions = stealer.incoming_connection(accepted(80)).unwrap();
    assert_eq!(actions[0], Action::OpenConnection { connection_id: 37 });
}

#[test]
fn id_allocation_at_cap_on_a_filtered_port() {
    let mut stealer = TcpConnectionStealer::new();
    stealer.new_client(1, ProtocolVersion::new(1, 2, 1));
    subscribed(&mut stealer, 1, StealType::FilteredHttp(80, "x".to_string()));
    for expected in 0..100u64 {
        let actions = stealer.incoming_connection(accepted(80)).unwrap();
        match &actions[0] {
            Action::SpawnFilter { connection_id, .. } => assert_eq!(*connection_id, expected),
            other => panic!("unexpected action {:?}", other),
        }
    }
    assert_eq!(stealer.incoming_connection(accepted(80)), Err(AgentError::ConnectionLimitReached));
    assert!(stealer.http_connection_closed(99).is_empty());
    assert!(!stealer.is_allocated(99));
    assert!(stealer.incoming_connection(accepted(80)).is_ok());
}

#[test]
fn duplicate_port_subscribe() {
    let mut stealer = TcpConnectionStealer::new();
    stealer.new_client(1, ProtocolVersion::new(1, 2, 1));
    subscribed(&mut stealer, 1, StealType::All(80));
    let actions = stealer.port_subscribe(1, StealType::All(80));
    assert_eq!(
        actions,
        vec![Action::Send {
            client_id: 1,
            message: DaemonTcp::SubscribeResult(Err(SubscribeError::PortAlreadyStolen(80))),
        }]
    );

    subscribed(&mut stealer, 1, StealType::FilteredHttp(81, "a".to_string()));
    let actions = stealer.port_subscribe(1, StealType::FilteredHttp(81, "b".to_string()));
    assert_eq!(
        actions,
        vec![Action::Send {
            client_id: 1,
            message: DaemonTcp::SubscribeResult(Err(SubscribeError::AlreadySubscribed(81))),
        }]
    );
    match stealer.subscription(81) {
        Some(PortSubscription::Filtered(filters)) => assert_eq!(filters.len(), 1),
        other => panic!("unexpected subscription {:?}", other),
    }
}

#[test]
fn unfiltered_and_filtered_collide() {
    let mut stealer = TcpConnectionStealer::new();
    stealer.new_client(1, ProtocolVersion::new(1, 2, 1));
    stealer.new_client(2, ProtocolVersion::new(1, 2, 1));
    subscribed(&mut stealer, 1, StealType::All(80));
    let actions = stealer.port_subscribe(2, StealType::FilteredHttp(80, "a".to_string()));
    assert_eq!(
        actions,
        vec![Action::Send {
            client_id: 2,
            message: DaemonTcp::SubscribeResult(Err(SubscribeError::PortAlreadyStolen(80))),
        }]
    );
    assert_eq!(stealer.subscription(80), Some(&PortSubscription::Unfiltered(1)));

    subscribed(&mut stealer, 1, StealType::FilteredHttp(81, "a".to_string()));
    let actions = stealer.port_subscribe(2, StealType::All(81));
    assert_eq!(
        actions,
        vec![Action::Send {
            client_id: 2,
            message: DaemonTcp::SubscribeResult(Err(SubscribeError::PortAlreadyStolen(81))),
        }]
    );
    match stealer.subscription(81) {
        Some(PortSubscription::Filtered(filters)) => {
            assert_eq!(filters.iter().map(|e| e.client_id).collect::<Vec<u64>>(), vec![1])
        }
        other => panic!("unexpected subscription {:?}", other),
    }
}

#[test]
fn late_accept_after_unsubscribe() {
    let mut stealer = TcpConnectionStealer::new();
    stealer.new_client(1, ProtocolVersion::new(1, 2, 1));
    subscribed(&mut stealer, 1, StealType::All(80));
    let actions = stealer.port_unsubscribe(1, 80);
    assert_eq!(actions, vec![Action::RemoveRedirection { port: 80 }]);
    let actions = stealer.incoming_connection(accepted(80)).unwrap();
    assert!(actions.is_empty());
    assert!(!stealer.is_allocated(0));
    assert!(stealer.connections_of(1).is_empty());
}

#[test]
fn header_filter_from_public_constructor_is_shared_order() {
    let first = HttpFilter::new_header_filter("x-t").unwrap();
    let second = HttpFilter::new_header_filter("test").unwrap();
    let filters = vec![
        FilterEntry { client_id: 9, filter: second },
        FilterEntry { client_id: 3, filter: first },
    ];
    let request = get(vec![header("X-Test", "1")]);
    assert_eq!(stealer::filter::first_matching_client(&filters, &request), Some(9));
}
