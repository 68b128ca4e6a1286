use bytes::Bytes;
use stealer::action::{
    Accepted, Action, AgentError, Command, Event, HandlerHttpRequest, StealerCommand, Step,
};
use stealer::filter::HttpFilter;
use stealer::protocol::{
    DaemonTcp, FilterPartSpec, FilterSubject, HttpFilterSpec, HttpHeader, HttpRequest,
    HttpResponse, IpAddress, MatchMode, ParsedRequest, SocketAddress, StealType, SubscribeError,
    TcpClose, TcpData,
};
use stealer::stealer::{
    TcpConnectionStealer, ACCEPT_QUEUE_DEPTH, CONNECTION_ID_CAP, FLUSH_CONNECTIONS_VARIABLE,
    HTTP_CLOSE_CHANNEL_DEPTH, HTTP_REQUEST_CHANNEL_DEPTH,
};
use stealer::subscriptions::PortSubscription;
use stealer::version::ProtocolVersion;

fn connection_to(port: u16) -> Accepted {
    Accepted {
        peer: SocketAddress { ip: IpAddress::V6(1), port: 40000 },
        original_destination: SocketAddress { ip: IpAddress::V4(10, 1, 1, 1), port },
        local_address: IpAddress::V4(10, 1, 1, 1),
    }
}

fn stolen(client_id: u64, connection_id: u64, request_id: u64) -> HandlerHttpRequest {
    HandlerHttpRequest {
        client_id,
        request: HttpRequest {
            connection_id,
            request_id,
            port: 80,
            internal_request: ParsedRequest {
                method: "GET".to_string(),
                path: "/".to_string(),
                headers: vec![HttpHeader { name: "Host".to_string(), value: "a".to_string() }],
                body: b"body".to_vec(),
            },
        },
    }
}

fn response(connection_id: u64, request_id: u64, status: u16) -> HttpResponse {
    HttpResponse {
        connection_id,
        request_id,
        port: 80,
        status,
        headers: Vec::new(),
        body: Vec::new(),
    }
}

fn close(client_id: u64, connection_id: u64) -> Action {
    Action::Send { client_id, message: DaemonTcp::Close(TcpClose { connection_id }) }
}

/// A stealer with clients 1 (old protocol) and 2 (framed protocol), port 80
/// filtered by both and port 8080 held by client 1 alone.
fn prepared() -> TcpConnectionStealer {
    let mut stealer = TcpConnectionStealer::new();
    stealer.new_client(1, ProtocolVersion::new(1, 2, 9));
    stealer.new_client(2, ProtocolVersion::new(1, 3, 0));
    stealer.port_subscribe(1, StealType::FilteredHttp(80, "a".to_string()));
    stealer.port_subscribe(2, StealType::FilteredHttp(80, "b".to_string()));
    stealer.port_subscribe(1, StealType::All(8080));
    stealer
}

#[test]
fn limits_have_their_values() {
    assert_eq!(CONNECTION_ID_CAP, 100);
    assert_eq!(HTTP_REQUEST_CHANNEL_DEPTH, 1024);
    assert_eq!(HTTP_CLOSE_CHANNEL_DEPTH, 1024);
    assert_eq!(ACCEPT_QUEUE_DEPTH, 4);
    assert_eq!(FLUSH_CONNECTIONS_VARIABLE, "MIRRORD_AGENT_STEALER_FLUSH_CONNECTIONS");
}

#[test]
fn new_stealer_is_empty() {
    let stealer = TcpConnectionStealer::new();
    assert!(!stealer.has_client(0));
    assert!(stealer.subscription(80).is_none());
    assert!(!stealer.is_allocated(0));
    assert_eq!(stealer.connection_owner(0), None);
    assert!(stealer.connections_of(0).is_empty());
}

#[test]
fn subscription_answer_waits_for_the_redirection() {
    let mut stealer = TcpConnectionStealer::new();
    stealer.new_client(1, ProtocolVersion::new(1, 0, 0));
    assert_eq!(
        stealer.port_subscribe(1, StealType::All(80)),
        vec![Action::AddRedirection { port: 80, client_id: 1 }]
    );
    assert_eq!(stealer.subscription(80), Some(&PortSubscription::Unfiltered(1)));
    assert_eq!(
        stealer.redirection_failed(1, 80, "no rules".to_string()),
        vec![Action::Send {
            client_id: 1,
            message: DaemonTcp::SubscribeResult(Err(SubscribeError::RedirectionFailed(
                80,
                "no rules".to_string()
            ))),
        }]
    );
    assert!(stealer.subscription(80).is_none());
    assert_eq!(
        stealer.port_subscribe(1, StealType::All(80)),
        vec![Action::AddRedirection { port: 80, client_id: 1 }]
    );
}

#[test]
fn subscription_of_an_unknown_client_is_entered_in_silence() {
    let mut stealer = TcpConnectionStealer::new();
    assert_eq!(
        stealer.port_subscribe(5, StealType::All(80)),
        vec![Action::AddRedirection { port: 80, client_id: 5 }]
    );
    assert!(stealer.redirection_added(5, 80).is_empty());
    assert!(stealer.port_subscribe(5, StealType::All(80)).is_empty());
    assert!(stealer
        .port_subscribe(5, StealType::FilteredHttp(81, "(".to_string()))
        .is_empty());
}

#[test]
fn connection_to_a_port_of_a_vanished_client_clears_the_client_away() {
    let mut stealer = TcpConnectionStealer::new();
    stealer.port_subscribe(5, StealType::All(80));
    stealer.port_subscribe(5, StealType::All(81));
    let actions = stealer.incoming_connection(connection_to(80)).unwrap();
    assert_eq!(
        actions,
        vec![
            Action::RemoveRedirection { port: 80 },
            Action::RemoveRedirection { port: 81 },
            Action::DropClient { client_id: 5 },
        ]
    );
    assert!(!stealer.is_allocated(0));
    assert!(stealer.subscription(80).is_none());
    assert!(stealer.subscription(81).is_none());
}

#[test]
fn request_form_follows_the_protocol_version() {
    let mut stealer = prepared();
    stealer.incoming_connection(connection_to(80)).unwrap();
    let actions = stealer.forward_stolen_http_request(Some(stolen(1, 0, 0))).unwrap();
    assert_eq!(
        actions,
        vec![
            Action::AwaitResponse { connection_id: 0, request_id: 0 },
            Action::Send { client_id: 1, message: DaemonTcp::HttpRequest(stolen(1, 0, 0).request) },
        ]
    );
    let actions = stealer.forward_stolen_http_request(Some(stolen(2, 0, 1))).unwrap();
    assert_eq!(
        actions,
        vec![
            Action::AwaitResponse { connection_id: 0, request_id: 1 },
            Action::Send {
                client_id: 2,
                message: DaemonTcp::HttpRequestFramed(stolen(2, 0, 1).request),
            },
        ]
    );

    stealer.switch_protocol_version(1, ProtocolVersion::new(1, 3, 0));
    stealer.switch_protocol_version(9, ProtocolVersion::new(1, 3, 0));
    assert!(!stealer.has_client(9));
    assert_eq!(stealer.protocol_version(1), Some(&ProtocolVersion::new(1, 3, 0)));
    let actions = stealer.forward_stolen_http_request(Some(stolen(1, 0, 2))).unwrap();
    assert_eq!(
        actions[1],
        Action::Send {
            client_id: 1,
            message: DaemonTcp::HttpRequestFramed(stolen(1, 0, 2).request),
        }
    );
}

#[test]
fn deliver_takes_the_form_it_is_told() {
    let mut stealer = prepared();
    stealer.incoming_connection(connection_to(80)).unwrap();
    let actions = stealer.deliver_http_request(stolen(1, 0, 0), true);
    assert_eq!(
        actions[1],
        Action::Send {
            client_id: 1,
            message: DaemonTcp::HttpRequestFramed(stolen(1, 0, 0).request),
        }
    );
    let actions = stealer.deliver_http_request(stolen(2, 0, 1), false);
    assert_eq!(
        actions[1],
        Action::Send { client_id: 2, message: DaemonTcp::HttpRequest(stolen(2, 0, 1).request) }
    );
}

#[test]
fn request_is_dropped_without_client_or_filtered_connection() {
    let mut stealer = prepared();
    assert!(stealer.forward_stolen_http_request(Some(stolen(1, 0, 0))).unwrap().is_empty());
    stealer.incoming_connection(connection_to(8080)).unwrap();
    assert!(stealer.forward_stolen_http_request(Some(stolen(1, 0, 0))).unwrap().is_empty());
    stealer.incoming_connection(connection_to(80)).unwrap();
    assert!(stealer.forward_stolen_http_request(Some(stolen(3, 1, 0))).unwrap().is_empty());
    assert!(!stealer.awaits_response(1, 0));
    assert!(stealer.clients_of(1).is_empty());
    assert_eq!(
        stealer.forward_stolen_http_request(None),
        Err(AgentError::HttpRequestReceiverClosed)
    );
}

#[test]
fn response_is_handed_over_once() {
    let mut stealer = prepared();
    stealer.incoming_connection(connection_to(80)).unwrap();
    stealer.forward_stolen_http_request(Some(stolen(1, 0, 7))).unwrap();
    assert!(stealer.http_response(response(0, 8, 200)).is_empty());
    assert!(stealer.http_response(response(1, 7, 200)).is_empty());
    assert_eq!(
        stealer.http_response(response(0, 7, 200)),
        vec![Action::Respond(response(0, 7, 200))]
    );
    assert!(stealer.http_response(response(0, 7, 200)).is_empty());
    assert!(stealer.http_response(response(0, 7, 500)).is_empty());
}

#[test]
fn filtered_connection_close_tells_those_who_saw_a_request() {
    let mut stealer = prepared();
    stealer.new_client(3, ProtocolVersion::new(1, 3, 0));
    stealer.incoming_connection(connection_to(80)).unwrap();
    stealer.incoming_connection(connection_to(80)).unwrap();
    stealer.forward_stolen_http_request(Some(stolen(2, 0, 0))).unwrap();
    stealer.forward_stolen_http_request(Some(stolen(1, 0, 1))).unwrap();
    stealer.forward_stolen_http_request(Some(stolen(2, 0, 2))).unwrap();
    stealer.forward_stolen_http_request(Some(stolen(1, 1, 0))).unwrap();
    stealer.http_response(response(0, 1, 200));
    assert_eq!(stealer.clients_of(0), vec![1, 2]);

    let actions = stealer.http_connection_closed(0);
    assert_eq!(
        actions,
        vec![
            close(1, 0),
            close(2, 0),
            Action::DropResponse { connection_id: 0, request_id: 0 },
            Action::DropResponse { connection_id: 0, request_id: 2 },
        ]
    );
    assert!(!stealer.is_allocated(0));
    assert!(stealer.is_allocated(1));
    assert!(stealer.clients_of(0).is_empty());
    assert!(!stealer.awaits_response(0, 0));
    assert!(stealer.awaits_response(1, 0));
    assert!(stealer.http_connection_closed(0).is_empty());
}

#[test]
fn filtered_connection_close_skips_clients_that_left() {
    let mut stealer = prepared();
    stealer.incoming_connection(connection_to(80)).unwrap();
    stealer.forward_stolen_http_request(Some(stolen(1, 0, 0))).unwrap();
    stealer.forward_stolen_http_request(Some(stolen(2, 0, 1))).unwrap();
    stealer.close_client(1);
    let actions = stealer.http_connection_closed(0);
    assert_eq!(
        actions,
        vec![
            close(2, 0),
            Action::DropResponse { connection_id: 0, request_id: 0 },
            Action::DropResponse { connection_id: 0, request_id: 1 },
        ]
    );
}

#[test]
fn filtered_connection_close_without_requests_frees_the_id() {
    let mut stealer = prepared();
    stealer.incoming_connection(connection_to(80)).unwrap();
    assert!(stealer.is_allocated(0));
    assert!(stealer.http_connection_closed(0).is_empty());
    assert!(!stealer.is_allocated(0));
}

#[test]
fn filter_close_of_a_whole_connection_is_passed_over() {
    let mut stealer = prepared();
    stealer.incoming_connection(connection_to(8080)).unwrap();
    assert!(stealer.http_connection_closed(0).is_empty());
    assert!(stealer.is_allocated(0));
    assert_eq!(stealer.connection_owner(0), Some(1));
    assert!(stealer.http_connection_closed(55).is_empty());
    assert!(stealer.http_connection_closed(u64::MAX).is_empty());
}

#[test]
fn read_error_ends_the_connection() {
    let mut stealer = prepared();
    stealer.incoming_connection(connection_to(8080)).unwrap();
    let actions = stealer.forward_incoming_tcp_data(0, Some(Err("reset".to_string())));
    assert_eq!(actions, vec![close(1, 0), Action::CloseConnection { connection_id: 0 }]);
    assert!(!stealer.is_allocated(0));
    assert!(stealer
        .forward_incoming_tcp_data(0, Some(Ok(Bytes::from_static(b"late"))))
        .is_empty());
    assert!(stealer.forward_data(TcpData { connection_id: 0, bytes: vec![1] }).is_empty());
}

#[test]
fn chunks_pass_through_in_order() {
    let mut stealer = prepared();
    stealer.incoming_connection(connection_to(8080)).unwrap();
    let mut seen: Vec<u8> = Vec::new();
    for chunk in [&b"ab"[..], &b""[..], &b"cde"[..], &[0u8, 255u8][..]] {
        let actions = stealer.forward_incoming_tcp_data(0, Some(Ok(Bytes::copy_from_slice(chunk))));
        assert_eq!(actions.len(), 1);
        match &actions[0] {
            Action::Send { client_id: 1, message: DaemonTcp::Data(data) } => {
                assert_eq!(data.connection_id, 0);
                assert_eq!(data.bytes, chunk);
                seen.extend_from_slice(&data.bytes);
            }
            other => panic!("unexpected action {:?}", other),
        }
    }
    assert_eq!(seen, b"abcde\x00\xff");
    let actions = stealer.forward_read(0, Some(Ok(b"xyz".to_vec())));
    assert_eq!(
        actions,
        vec![Action::Send {
            client_id: 1,
            message: DaemonTcp::Data(TcpData { connection_id: 0, bytes: b"xyz".to_vec() }),
        }]
    );
}

#[test]
fn data_for_unknown_connections_is_dropped() {
    let mut stealer = prepared();
    stealer.incoming_connection(connection_to(80)).unwrap();
    assert!(stealer.forward_incoming_tcp_data(0, Some(Ok(Bytes::from_static(b"x")))).is_empty());
    assert!(stealer.forward_incoming_tcp_data(0, None).is_empty());
    assert!(stealer.is_allocated(0));
    assert!(stealer.forward_incoming_tcp_data(9, None).is_empty());
    assert!(stealer.forward_data(TcpData { connection_id: 0, bytes: vec![1] }).is_empty());
    assert!(stealer.connection_unsubscribe(9).is_empty());
    assert!(stealer.is_allocated(0));
}

#[test]
fn connection_unsubscribe_ends_a_filtered_connection() {
    let mut stealer = prepared();
    stealer.incoming_connection(connection_to(80)).unwrap();
    stealer.incoming_connection(connection_to(80)).unwrap();
    stealer.forward_stolen_http_request(Some(stolen(2, 0, 0))).unwrap();
    stealer.forward_stolen_http_request(Some(stolen(1, 0, 1))).unwrap();
    stealer.forward_stolen_http_request(Some(stolen(1, 1, 0))).unwrap();
    stealer.http_response(response(0, 0, 200));

    let actions = stealer.connection_unsubscribe(0);
    assert_eq!(
        actions,
        vec![close(1, 0), close(2, 0), Action::DropResponse { connection_id: 0, request_id: 1 }]
    );
    assert!(!stealer.is_allocated(0));
    assert!(stealer.clients_of(0).is_empty());
    assert!(!stealer.awaits_response(0, 1));
    assert!(stealer.is_allocated(1));
    assert_eq!(stealer.clients_of(1), vec![1]);
    assert!(stealer.awaits_response(1, 0));

    assert!(stealer.connection_unsubscribe(0).is_empty());
    assert!(stealer.http_connection_closed(0).is_empty());
    assert!(stealer.forward_stolen_http_request(Some(stolen(1, 0, 2))).unwrap().is_empty());
    match &stealer.incoming_connection(connection_to(80)).unwrap()[0] {
        Action::SpawnFilter { connection_id, .. } => assert_eq!(*connection_id, 0),
        other => panic!("unexpected action {:?}", other),
    }
}

#[test]
fn connection_unsubscribe_of_a_filtered_connection_without_requests_frees_the_id() {
    let mut stealer = prepared();
    stealer.incoming_connection(connection_to(80)).unwrap();
    assert!(stealer.is_allocated(0));
    assert!(stealer.connection_unsubscribe(0).is_empty());
    assert!(!stealer.is_allocated(0));
}

#[test]
fn unsupported_pattern_is_answered_without_compiling() {
    let mut stealer = TcpConnectionStealer::new();
    stealer.new_client(1, ProtocolVersion::new(1, 3, 0));
    for pattern in ["(?(1)", "a(?(1)b|c", "((?#c)?(1)", "(?x)( ?(1)", "\\k<99999999999999999999>"] {
        let actions =
            stealer.port_subscribe(1, StealType::FilteredHttp(80, pattern.to_string()));
        assert_eq!(
            actions,
            vec![Action::Send {
                client_id: 1,
                message: DaemonTcp::SubscribeResult(Err(SubscribeError::BadHttpFilterRegex(
                    pattern.to_string(),
                    stealer::filter::UNSUPPORTED_PATTERN.to_string(),
                ))),
            }]
        );
        assert!(stealer.subscription(80).is_none());
    }
}

#[test]
fn connection_unsubscribe_closes_without_a_message() {
    let mut stealer = prepared();
    stealer.incoming_connection(connection_to(8080)).unwrap();
    stealer.incoming_connection(connection_to(8080)).unwrap();
    assert_eq!(
        stealer.connection_unsubscribe(0),
        vec![Action::CloseConnection { connection_id: 0 }]
    );
    assert_eq!(stealer.connections_of(1), vec![1]);
    assert!(stealer.connection_unsubscribe(0).is_empty());
    assert_eq!(stealer.connection_ended(0), Vec::<Action>::new());
    assert_eq!(
        stealer.connection_ended(1),
        vec![close(1, 1), Action::CloseConnection { connection_id: 1 }]
    );
}

#[test]
fn send_message_to_single_client_needs_the_client() {
    let stealer = prepared();
    assert_eq!(
        stealer.send_message_to_single_client(2, DaemonTcp::Close(TcpClose { connection_id: 3 })),
        vec![close(2, 3)]
    );
    assert!(stealer
        .send_message_to_single_client(7, DaemonTcp::Close(TcpClose { connection_id: 3 }))
        .is_empty());
}

#[test]
fn close_client_leaves_the_filters_of_others() {
    let mut stealer = prepared();
    stealer.incoming_connection(connection_to(8080)).unwrap();
    let actions = stealer.close_client(1);
    assert_eq!(
        actions,
        vec![
            Action::RemoveRedirection { port: 8080 },
            Action::CloseConnection { connection_id: 0 },
            Action::DropClient { client_id: 1 },
        ]
    );
    match stealer.subscription(80) {
        Some(PortSubscription::Filtered(filters)) => {
            assert_eq!(filters.len(), 1);
            assert_eq!(filters[0].client_id, 2);
            assert_eq!(filters[0].filter, HttpFilter::new_header_filter("b").unwrap());
        }
        other => panic!("unexpected subscription {:?}", other),
    }
    assert!(stealer.has_client(2));
    assert_eq!(
        stealer.close_client(1),
        vec![Action::DropClient { client_id: 1 }]
    );
}

#[test]
fn commands_reach_their_handlers() {
    let mut stealer = TcpConnectionStealer::new();
    let command = |client_id, command| StealerCommand { client_id, command };
    assert!(stealer
        .handle_command(command(1, Command::NewClient(ProtocolVersion::new(1, 3, 0))))
        .is_empty());
    assert!(stealer.has_client(1));
    assert_eq!(
        stealer.handle_command(command(1, Command::PortSubscribe(StealType::All(80)))),
        vec![Action::AddRedirection { port: 80, client_id: 1 }]
    );
    stealer.incoming_connection(connection_to(80)).unwrap();
    assert_eq!(
        stealer.handle_command(command(
            1,
            Command::ResponseData(TcpData { connection_id: 0, bytes: b"hi".to_vec() })
        )),
        vec![Action::Write(TcpData { connection_id: 0, bytes: b"hi".to_vec() })]
    );
    assert!(stealer
        .handle_command(command(1, Command::HttpResponse(response(0, 0, 200))))
        .is_empty());
    assert!(stealer
        .handle_command(command(
            1,
            Command::SwitchProtocolVersion(ProtocolVersion::new(1, 0, 0))
        ))
        .is_empty());
    assert_eq!(stealer.protocol_version(1), Some(&ProtocolVersion::new(1, 0, 0)));
    assert_eq!(
        stealer.handle_command(command(1, Command::ConnectionUnsubscribe(0))),
        vec![Action::CloseConnection { connection_id: 0 }]
    );
    assert_eq!(
        stealer.handle_command(command(1, Command::PortUnsubscribe(80))),
        vec![Action::RemoveRedirection { port: 80 }]
    );
    assert_eq!(
        stealer.handle_command(command(1, Command::ClientClose)),
        vec![Action::DropClient { client_id: 1 }]
    );
    assert!(!stealer.has_client(1));
}

#[test]
fn loop_ends_and_fails_as_its_events_say() {
    let mut stealer = prepared();
    assert_eq!(stealer.step(Event::Command(None)), Step::Stop);
    assert_eq!(stealer.step(Event::Accept(None)), Step::Stop);
    assert_eq!(stealer.step(Event::Cancelled), Step::Stop);
    assert_eq!(
        stealer.step(Event::HttpRequest(None)),
        Step::Failed(AgentError::HttpRequestReceiverClosed)
    );
    assert!(stealer.has_client(1));
    assert!(stealer.subscription(80).is_some());
}

#[test]
fn loop_hands_events_to_their_handlers() {
    let mut stealer = prepared();
    match stealer.step(Event::Accept(Some(connection_to(8080)))) {
        Step::Continue(actions) => {
            assert_eq!(actions[0], Action::OpenConnection { connection_id: 0 })
        }
        other => panic!("unexpected step {:?}", other),
    }
    assert_eq!(
        stealer.step(Event::Read {
            connection_id: 0,
            incoming: Some(Ok(Bytes::from_static(b"hello")))
        }),
        Step::Continue(vec![Action::Send {
            client_id: 1,
            message: DaemonTcp::Data(TcpData { connection_id: 0, bytes: b"hello".to_vec() }),
        }])
    );
    assert!(matches!(stealer.step(Event::Accept(Some(connection_to(80)))), Step::Continue(_)));
    assert_eq!(
        stealer.step(Event::HttpRequest(Some(stolen(2, 1, 0)))),
        Step::Continue(vec![
            Action::AwaitResponse { connection_id: 1, request_id: 0 },
            Action::Send {
                client_id: 2,
                message: DaemonTcp::HttpRequestFramed(stolen(2, 1, 0).request),
            },
        ])
    );
    assert_eq!(
        stealer.step(Event::HttpClose(1)),
        Step::Continue(vec![
            close(2, 1),
            Action::DropResponse { connection_id: 1, request_id: 0 },
        ])
    );
    assert_eq!(
        stealer.step(Event::RedirectionAdded { client_id: 1, port: 8080 }),
        Step::Continue(vec![Action::Send {
            client_id: 1,
            message: DaemonTcp::SubscribeResult(Ok(())),
        }])
    );
    assert_eq!(
        stealer.step(Event::RedirectionFailed {
            client_id: 2,
            port: 80,
            message: "denied".to_string()
        }),
        Step::Continue(vec![Action::Send {
            client_id: 2,
            message: DaemonTcp::SubscribeResult(Err(SubscribeError::RedirectionFailed(
                80,
                "denied".to_string()
            ))),
        }])
    );
    assert_eq!(
        stealer.step(Event::SendFailed { client_id: 1 }),
        Step::Continue(vec![
            Action::RemoveRedirection { port: 80 },
            Action::RemoveRedirection { port: 8080 },
            Action::CloseConnection { connection_id: 0 },
            Action::DropClient { client_id: 1 },
        ])
    );
    assert_eq!(
        stealer.step(Event::Read { connection_id: 0, incoming: None }),
        Step::Continue(vec![])
    );
}

#[test]
fn extended_filter_subscription() {
    let mut stealer = TcpConnectionStealer::new();
    stealer.new_client(1, ProtocolVersion::new(1, 3, 0));
    let good = HttpFilterSpec {
        mode: MatchMode::Any,
        parts: vec![
            FilterPartSpec { subject: FilterSubject::Path, pattern: "^/api".to_string() },
            FilterPartSpec { subject: FilterSubject::Method, pattern: "^put$".to_string() },
        ],
    };
    assert_eq!(
        stealer.port_subscribe(1, StealType::FilteredHttpEx(80, good.clone())),
        vec![Action::AddRedirection { port: 80, client_id: 1 }]
    );
    match stealer.subscription(80) {
        Some(PortSubscription::Filtered(filters)) => {
            assert_eq!(filters.len(), 1);
            assert_eq!(filters[0].client_id, 1);
            assert_eq!(filters[0].filter, HttpFilter::try_from_spec(&good).unwrap());
        }
        other => panic!("unexpected subscription {:?}", other),
    }

    let bad = HttpFilterSpec {
        mode: MatchMode::All,
        parts: vec![
            FilterPartSpec { subject: FilterSubject::Path, pattern: "^/api".to_string() },
            FilterPartSpec { subject: FilterSubject::Header, pattern: "x-[".to_string() },
        ],
    };
    let message = fancy_regex::Regex::new("(?i)x-[").unwrap_err().to_string();
    assert_eq!(
        stealer.port_subscribe(1, StealType::FilteredHttpEx(81, bad.clone())),
        vec![Action::Send {
            client_id: 1,
            message: DaemonTcp::SubscribeResult(Err(SubscribeError::BadHttpFilterExRegex(
                bad, message
            ))),
        }]
    );
    assert!(stealer.subscription(81).is_none());
}

#[test]
fn subscribe_takes_a_compiled_filter_or_its_error() {
    let mut stealer = TcpConnectionStealer::new();
    stealer.new_client(1, ProtocolVersion::new(1, 3, 0));
    stealer.new_client(2, ProtocolVersion::new(1, 3, 0));
    let filter = HttpFilter::new_header_filter("a").unwrap();
    assert_eq!(
        stealer.subscribe(1, 80, Ok(Some(filter))),
        vec![Action::AddRedirection { port: 80, client_id: 1 }]
    );
    let filter = HttpFilter::new_header_filter("b").unwrap();
    assert_eq!(
        stealer.subscribe(2, 80, Ok(Some(filter))),
        vec![Action::Send { client_id: 2, message: DaemonTcp::SubscribeResult(Ok(())) }]
    );
    assert_eq!(
        stealer.subscribe(2, 80, Ok(None)),
        vec![Action::Send {
            client_id: 2,
            message: DaemonTcp::SubscribeResult(Err(SubscribeError::PortAlreadyStolen(80))),
        }]
    );
    let error = SubscribeError::BadHttpFilterRegex("(".to_string(), "no".to_string());
    assert_eq!(
        stealer.subscribe(2, 81, Err(error.clone())),
        vec![Action::Send { client_id: 2, message: DaemonTcp::SubscribeResult(Err(error)) }]
    );
    assert!(stealer.subscription(81).is_none());
}
