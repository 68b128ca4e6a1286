//! The stealer as a mathematical state with one transition for each kind of
//! event. The executable stealer is specified by these transitions.

use crate::action::{AgentError, ActionView, CommandView, EventView, StepView};
use crate::filter::{
    case_insensitive, compiled, filter_compile_error, header_filter, pattern_problem,
    FilterEntryView,
};
use crate::index_allocator::lowest_vacant;
use crate::protocol::{
    spec_localhost, ClientId, ConnectionId, DaemonTcpView, HttpFilterView, HttpRequestView,
    HttpResponseView, IpAddress, NewTcpConnection, Port, RequestId, SocketAddress,
    StealTypeView, SubscribeErrorView, TcpClose, TcpDataView,
};
use crate::relation::{
    has_first, rows_finite, seconds_of, with_pair, without_first, without_pair,
};
use crate::subscriptions::{
    add_outcome, after_add, after_release, released_ports, subscription_at, subscriptions_wf,
    AddOutcomeView, PortSubscriptionView,
};
use crate::version::{takes_framed, ProtocolVersionView};
use vstd::prelude::*;

verus! {

/// Everything the stealer keeps track of.
pub struct StealerView {
    /// How each held port is held.
    pub port_subscriptions: Map<Port, PortSubscriptionView>,
    /// The registered clients with their protocol versions.
    pub clients: Map<ClientId, ProtocolVersionView>,
    /// The number of connection ids that can be in use at once.
    pub capacity: nat,
    /// The connection ids in use.
    pub allocated: Set<ConnectionId>,
    /// The connections whose writable side the caller keeps.
    pub write_streams: Set<ConnectionId>,
    /// The connections whose readable side the caller keeps.
    pub read_streams: Set<ConnectionId>,
    /// The client that each whole stolen connection belongs to.
    pub connection_clients: Map<ConnectionId, ClientId>,
    /// The whole stolen connections of each client, as pairs of client and
    /// connection.
    pub client_connections: Set<(ClientId, ConnectionId)>,
    /// The clients that were sent a request of each filtered connection, as
    /// pairs of connection and client.
    pub http_connection_clients: Set<(ConnectionId, ClientId)>,
    /// The requests whose response is awaited, as pairs of connection and
    /// request.
    pub http_response_senders: Set<(ConnectionId, RequestId)>,
}

/// A state with the actions that led to it.
pub struct Outcome {
    pub state: StealerView,
    pub actions: Seq<ActionView>,
}

/// A state with the way the loop goes on from it.
pub struct Turn {
    pub state: StealerView,
    pub step: StepView,
}

/// What was read from a stolen connection: a chunk, a read error with its
/// message, or `None` at the end of the stream.
pub type ReadView = Option<Result<Seq<u8>, Seq<char>>>;

/// The action that removes the redirection of a port.
pub open spec fn removal() -> spec_fn(Port) -> ActionView {
    |port: Port| ActionView::RemoveRedirection { port }
}

/// The action that closes a connection.
pub open spec fn closing() -> spec_fn(ConnectionId) -> ActionView {
    |connection_id: ConnectionId| ActionView::CloseConnection { connection_id }
}

/// The action that drops the response sink of a request of `connection_id`.
pub open spec fn dropping(connection_id: ConnectionId) -> spec_fn(RequestId) -> ActionView {
    |request_id: RequestId| ActionView::DropResponse { connection_id, request_id }
}

/// The action that tells a client that `connection_id` is over.
pub open spec fn close_notice(connection_id: ConnectionId) -> spec_fn(ClientId) -> ActionView {
    |client_id: ClientId|
        ActionView::Send { client_id, message: DaemonTcpView::Close(TcpClose { connection_id }) }
}

/// Holds of the clients registered in `clients`.
pub open spec fn registered_in(clients: Map<ClientId, ProtocolVersionView>) -> spec_fn(
    ClientId,
) -> bool {
    |client_id: ClientId| clients.contains_key(client_id)
}

/// The port that a subscription asks for, and either the filter it asks for
/// (`None` for the whole port) or the error of compiling that filter.
pub open spec fn compile_steal(steal: StealTypeView) -> (Port, Result<
    Option<HttpFilterView>,
    SubscribeErrorView,
>) {
    match steal {
        StealTypeView::All(port) => (port, Ok(None)),
        StealTypeView::FilteredHttp(port, pattern) => match pattern_problem(
            case_insensitive(pattern),
        ) {
            None => (port, Ok(Some(header_filter(case_insensitive(pattern))))),
            Some(message) => (port, Err(SubscribeErrorView::BadHttpFilterRegex(pattern, message))),
        },
        StealTypeView::FilteredHttpEx(port, filter) => match filter_compile_error(filter) {
            None => (port, Ok(Some(compiled(filter)))),
            Some(message) => (
                port,
                Err(SubscribeErrorView::BadHttpFilterExRegex(filter, message)),
            ),
        },
    }
}

impl StealerView {
    /// The state in which nothing is held, registered or in use.
    pub open spec fn initial(capacity: nat) -> StealerView {
        StealerView {
            port_subscriptions: Map::empty(),
            clients: Map::empty(),
            capacity,
            allocated: Set::empty(),
            write_streams: Set::empty(),
            read_streams: Set::empty(),
            connection_clients: Map::empty(),
            client_connections: Set::empty(),
            http_connection_clients: Set::empty(),
            http_response_senders: Set::empty(),
        }
    }

    /// Whether `connection_id` names a connection stolen as a whole.
    pub open spec fn is_raw(self, connection_id: ConnectionId) -> bool {
        self.connection_clients.contains_key(connection_id)
    }

    /// Whether `connection_id` names a connection in the hands of a filter
    /// task: its id is in use, and it was not stolen as a whole.
    pub open spec fn is_filtered(self, connection_id: ConnectionId) -> bool {
        self.allocated.contains(connection_id) && !self.connection_clients.contains_key(
            connection_id,
        )
    }

    /// Whether `connection_id` occurs in any table.
    pub open spec fn mentions(self, connection_id: ConnectionId) -> bool {
        ||| self.write_streams.contains(connection_id)
        ||| self.read_streams.contains(connection_id)
        ||| self.connection_clients.contains_key(connection_id)
        ||| exists|client: ClientId| self.client_connections.contains((client, connection_id))
        ||| has_first(self.http_connection_clients, connection_id)
        ||| has_first(self.http_response_senders, connection_id)
    }

    /// The invariant of the tables.
    pub open spec fn wf(self) -> bool {
        // Ports are held by one client alone or shared through filters.
        &&& subscriptions_wf(self.port_subscriptions)
        // Ids are issued below the cap.
        &&& self.capacity <= u64::MAX
        &&& forall|c: ConnectionId| self.allocated.contains(c) ==> c < self.capacity
        // A whole stolen connection has its owner, both sides of its socket
        // and its place among the owner's connections, or none of them.
        &&& self.write_streams =~= self.connection_clients.dom()
        &&& self.read_streams =~= self.connection_clients.dom()
        &&& rows_finite(self.client_connections)
        &&& forall|p: (ClientId, ConnectionId)| #[trigger]
            self.client_connections.contains(p) ==> self.connection_clients.contains_key(p.1)
                && self.connection_clients[p.1] == p.0
        &&& forall|c: ConnectionId| #[trigger]
            self.connection_clients.contains_key(c) ==> self.client_connections.contains(
                (self.connection_clients[c], c),
            )
        // Its id is in use and its owner is registered.
        &&& forall|c: ConnectionId| #[trigger]
            self.connection_clients.contains_key(c) ==> self.allocated.contains(c)
                && self.clients.contains_key(self.connection_clients[c])
        // What is noted of filtered connections speaks of ids in use that
        // were not stolen as a whole.
        &&& rows_finite(self.http_connection_clients)
        &&& forall|p: (ConnectionId, ClientId)| #[trigger]
            self.http_connection_clients.contains(p) ==> self.is_filtered(p.0)
        &&& rows_finite(self.http_response_senders)
        &&& forall|p: (ConnectionId, RequestId)| #[trigger]
            self.http_response_senders.contains(p) ==> self.is_filtered(p.0)
    }

    /// The action that sends `message` to `client`, if the client is
    /// registered; nothing otherwise.
    pub open spec fn send(self, client: ClientId, message: DaemonTcpView) -> Seq<ActionView> {
        if self.clients.contains_key(client) {
            seq![ActionView::Send { client_id: client, message }]
        } else {
            Seq::empty()
        }
    }

    /// Nothing changes and nothing is to be done.
    pub open spec fn unchanged(self) -> Outcome {
        Outcome { state: self, actions: Seq::empty() }
    }

    /// Registers a client.
    pub open spec fn new_client(self, client: ClientId, version: ProtocolVersionView) -> Outcome {
        Outcome {
            state: StealerView { clients: self.clients.insert(client, version), ..self },
            actions: Seq::empty(),
        }
    }

    /// Notes the new protocol version of a registered client.
    pub open spec fn switch_protocol_version(
        self,
        client: ClientId,
        version: ProtocolVersionView,
    ) -> Outcome {
        if self.clients.contains_key(client) {
            self.new_client(client, version)
        } else {
            self.unchanged()
        }
    }

    /// Enters a subscription whose filter is compiled, or answers with the
    /// error of compiling it. A free port is taken at once, and the answer to
    /// the client waits for its redirection; otherwise the client is answered.
    pub open spec fn subscribe(
        self,
        client: ClientId,
        port: Port,
        filter: Result<Option<HttpFilterView>, SubscribeErrorView>,
    ) -> Outcome {
        match filter {
            Err(error) => Outcome {
                state: self,
                actions: self.send(client, DaemonTcpView::SubscribeResult(Err(error))),
            },
            Ok(filter) => {
                let state = StealerView {
                    port_subscriptions: after_add(self.port_subscriptions, client, port, filter),
                    ..self
                };
                match add_outcome(self.port_subscriptions, client, port, filter) {
                    AddOutcomeView::NewPort => Outcome {
                        state,
                        actions: seq![ActionView::AddRedirection { port, client_id: client }],
                    },
                    AddOutcomeView::Joined => Outcome {
                        state,
                        actions: self.send(client, DaemonTcpView::SubscribeResult(Ok(()))),
                    },
                    AddOutcomeView::Rejected(error) => Outcome {
                        state,
                        actions: self.send(client, DaemonTcpView::SubscribeResult(Err(error))),
                    },
                }
            },
        }
    }

    /// Compiles the filter of a subscription, if it has one, and enters it.
    pub open spec fn port_subscribe(self, client: ClientId, steal: StealTypeView) -> Outcome {
        self.subscribe(client, compile_steal(steal).0, compile_steal(steal).1)
    }

    /// The redirection that a subscription waited for is there: the client
    /// is told that it holds the port.
    pub open spec fn redirection_added(self, client: ClientId, port: Port) -> Outcome {
        Outcome {
            state: self,
            actions: self.send(client, DaemonTcpView::SubscribeResult(Ok(()))),
        }
    }

    /// The redirection that a subscription waited for could not be
    /// installed: the client loses its stake in the port and is told why.
    pub open spec fn redirection_failed(
        self,
        client: ClientId,
        port: Port,
        message: Seq<char>,
    ) -> Outcome {
        Outcome {
            state: StealerView {
                port_subscriptions: after_release(self.port_subscriptions, client, Some(port)),
                ..self
            },
            actions: self.send(
                client,
                DaemonTcpView::SubscribeResult(
                    Err(SubscribeErrorView::RedirectionFailed(port, message)),
                ),
            ),
        }
    }

    /// Takes a client's stake out of a port; the redirection of a port that
    /// nobody holds any more is removed.
    pub open spec fn port_unsubscribe(self, client: ClientId, port: Port) -> Outcome {
        Outcome {
            state: StealerView {
                port_subscriptions: after_release(self.port_subscriptions, client, Some(port)),
                ..self
            },
            actions: released_ports(self.port_subscriptions, client, Some(port)).map_values(
                removal(),
            ),
        }
    }

    /// The state without any trace of the whole stolen connection
    /// `connection_id`, and with its id free again.
    pub open spec fn without_connection(self, connection_id: ConnectionId) -> StealerView {
        StealerView {
            allocated: self.allocated.remove(connection_id),
            write_streams: self.write_streams.remove(connection_id),
            read_streams: self.read_streams.remove(connection_id),
            connection_clients: self.connection_clients.remove(connection_id),
            client_connections: without_pair(
                self.client_connections,
                (self.connection_clients[connection_id], connection_id),
            ),
            ..self
        }
    }

    /// Closes a connection at a client's wish: the connection leaves every
    /// table and its id is free again. For a whole stolen connection the
    /// socket is dropped. A connection of a filter task ends as it does when
    /// its task ends: the clients that were sent a request of it are told,
    /// and the response sinks still kept for it are dropped. An id that is
    /// not in use is passed over.
    pub open spec fn connection_unsubscribe(self, connection_id: ConnectionId) -> Outcome {
        if self.is_raw(connection_id) {
            Outcome {
                state: self.without_connection(connection_id),
                actions: seq![ActionView::CloseConnection { connection_id }],
            }
        } else {
            self.http_connection_closed(connection_id)
        }
    }

    /// Forgets a client: its stakes in ports, its whole stolen connections,
    /// and its registration.
    pub open spec fn close_client(self, client: ClientId) -> Outcome {
        let connections = seconds_of(self.client_connections, client);
        Outcome {
            state: StealerView {
                port_subscriptions: after_release(self.port_subscriptions, client, None),
                clients: self.clients.remove(client),
                allocated: self.allocated.difference(connections.to_set()),
                write_streams: self.write_streams.difference(connections.to_set()),
                read_streams: self.read_streams.difference(connections.to_set()),
                connection_clients: self.connection_clients.remove_keys(connections.to_set()),
                client_connections: without_first(self.client_connections, client),
                ..self
            },
            actions: released_ports(self.port_subscriptions, client, None).map_values(removal())
                + connections.map_values(closing()) + seq![
                ActionView::DropClient { client_id: client },
            ],
        }
    }

    /// Bytes from a client for the remote end of a connection: written if
    /// the connection is still there.
    pub open spec fn forward_data(self, data: TcpDataView) -> Outcome {
        Outcome {
            state: self,
            actions: if self.write_streams.contains(data.connection_id) {
                seq![ActionView::Write(data)]
            } else {
                Seq::empty()
            },
        }
    }

    /// A client's answer to a stolen request: handed to the waiting sink, once.
    pub open spec fn http_response(self, response: HttpResponseView) -> Outcome {
        let key = (response.connection_id, response.request_id);
        if self.http_response_senders.contains(key) {
            Outcome {
                state: StealerView {
                    http_response_senders: without_pair(self.http_response_senders, key),
                    ..self
                },
                actions: seq![ActionView::Respond(response)],
            }
        } else {
            self.unchanged()
        }
    }

    /// The end of a whole stolen connection, by the end of its stream or by
    /// an error: its owner is told, its socket dropped and its id freed.
    pub open spec fn connection_ended(self, connection_id: ConnectionId) -> Outcome {
        if self.is_raw(connection_id) {
            Outcome {
                state: self.without_connection(connection_id),
                actions: self.send(
                    self.connection_clients[connection_id],
                    DaemonTcpView::Close(TcpClose { connection_id }),
                ) + seq![ActionView::CloseConnection { connection_id }],
            }
        } else {
            self.unchanged()
        }
    }

    /// What was read from a whole stolen connection goes to its owner: the
    /// bytes as they are, anything else as the end of the connection.
    pub open spec fn forward_incoming_tcp_data(
        self,
        connection_id: ConnectionId,
        incoming: ReadView,
    ) -> Outcome {
        match incoming {
            Some(Ok(bytes)) => if self.is_raw(connection_id) {
                Outcome {
                    state: self,
                    actions: self.send(
                        self.connection_clients[connection_id],
                        DaemonTcpView::Data(TcpDataView { connection_id, bytes }),
                    ),
                }
            } else {
                self.unchanged()
            },
            _ => self.connection_ended(connection_id),
        }
    }

    /// A request that a filter task matched goes to its client, in the form
    /// that the client's protocol version calls for, and its response is
    /// awaited. It is dropped if the client is gone or if the connection is
    /// none of a filter task.
    pub open spec fn deliver_http_request(
        self,
        client: ClientId,
        request: HttpRequestView,
        framed: bool,
    ) -> Outcome {
        if self.is_filtered(request.connection_id) && self.clients.contains_key(client) {
            Outcome {
                state: StealerView {
                    http_connection_clients: with_pair(
                        self.http_connection_clients,
                        (request.connection_id, client),
                    ),
                    http_response_senders: with_pair(
                        self.http_response_senders,
                        (request.connection_id, request.request_id),
                    ),
                    ..self
                },
                actions: seq![
                    ActionView::AwaitResponse {
                        connection_id: request.connection_id,
                        request_id: request.request_id,
                    },
                    ActionView::Send {
                        client_id: client,
                        message: if framed {
                            DaemonTcpView::HttpRequestFramed(request)
                        } else {
                            DaemonTcpView::HttpRequest(request)
                        },
                    },
                ],
            }
        } else {
            self.unchanged()
        }
    }

    /// As `deliver_http_request`, in the form that the client's registered
    /// protocol version calls for.
    pub open spec fn forward_stolen_http_request(
        self,
        client: ClientId,
        request: HttpRequestView,
    ) -> Outcome {
        self.deliver_http_request(
            client,
            request,
            self.clients.contains_key(client) && takes_framed(self.clients[client]),
        )
    }

    /// The end of a filtered connection: the registered clients that were
    /// sent a request of it are told, the response sinks still kept for it
    /// are dropped, and its id is freed.
    pub open spec fn http_connection_closed(self, connection_id: ConnectionId) -> Outcome {
        if self.is_filtered(connection_id) {
            Outcome {
                state: StealerView {
                    allocated: self.allocated.remove(connection_id),
                    http_connection_clients: without_first(
                        self.http_connection_clients,
                        connection_id,
                    ),
                    http_response_senders: without_first(
                        self.http_response_senders,
                        connection_id,
                    ),
                    ..self
                },
                actions: seconds_of(self.http_connection_clients, connection_id).filter(
                    registered_in(self.clients),
                ).map_values(close_notice(connection_id)) + seconds_of(
                    self.http_response_senders,
                    connection_id,
                ).map_values(dropping(connection_id)),
            }
        } else {
            self.unchanged()
        }
    }

    /// A connection to a port that one client holds alone becomes that
    /// client's, under the smallest free id. If the client is gone, what is
    /// left of it is cleared away and the connection dropped. `None` when
    /// every id is in use.
    pub open spec fn steal_connection(
        self,
        client: ClientId,
        peer: SocketAddress,
        port: Port,
        local_address: IpAddress,
    ) -> Option<Outcome> {
        match lowest_vacant(self.allocated, self.capacity) {
            None => None,
            Some(connection_id) => if self.clients.contains_key(client) {
                Some(
                    Outcome {
                        state: StealerView {
                            allocated: self.allocated.insert(connection_id),
                            write_streams: self.write_streams.insert(connection_id),
                            read_streams: self.read_streams.insert(connection_id),
                            connection_clients: self.connection_clients.insert(
                                connection_id,
                                client,
                            ),
                            client_connections: with_pair(
                                self.client_connections,
                                (client, connection_id),
                            ),
                            ..self
                        },
                        actions: seq![
                            ActionView::OpenConnection { connection_id },
                            ActionView::Send {
                                client_id: client,
                                message: DaemonTcpView::NewConnection(
                                    NewTcpConnection {
                                        connection_id,
                                        remote_address: peer.ip,
                                        destination_port: port,
                                        source_port: peer.port,
                                        local_address,
                                    },
                                ),
                            },
                        ],
                    },
                )
            } else {
                Some(self.close_client(client))
            },
        }
    }

    /// A connection to a filtered port goes to a new filter task, under the
    /// smallest free id, with the filters of the port and with the loopback
    /// address as its destination. `None` when every id is in use.
    pub open spec fn filter_connection(self, port: Port, filters: Seq<FilterEntryView>) -> Option<
        Outcome,
    > {
        match lowest_vacant(self.allocated, self.capacity) {
            None => None,
            Some(connection_id) => Some(
                Outcome {
                    state: StealerView {
                        allocated: self.allocated.insert(connection_id),
                        ..self
                    },
                    actions: seq![
                        ActionView::SpawnFilter {
                            connection_id,
                            destination: SocketAddress { ip: spec_localhost(), port },
                            filters,
                        },
                    ],
                },
            ),
        }
    }

    /// An accepted connection is dealt with as the port it was going to is
    /// held; one to a port that nobody holds is dropped without a trace.
    /// `None` when the port is held and every id is in use.
    pub open spec fn incoming_connection(
        self,
        peer: SocketAddress,
        original_destination: SocketAddress,
        local_address: IpAddress,
    ) -> Option<Outcome> {
        let port = original_destination.port;
        match subscription_at(self.port_subscriptions, port) {
            None => Some(self.unchanged()),
            Some(PortSubscriptionView::Unfiltered(client)) => self.steal_connection(
                client,
                peer,
                port,
                local_address,
            ),
            Some(PortSubscriptionView::Filtered(filters)) => self.filter_connection(port, filters),
        }
    }

    /// A command is handled by the transition of its kind.
    pub open spec fn handle_command(self, client: ClientId, command: CommandView) -> Outcome {
        match command {
            CommandView::NewClient(version) => self.new_client(client, version),
            CommandView::PortSubscribe(steal) => self.port_subscribe(client, steal),
            CommandView::PortUnsubscribe(port) => self.port_unsubscribe(client, port),
            CommandView::ConnectionUnsubscribe(connection_id) => self.connection_unsubscribe(
                connection_id,
            ),
            CommandView::ClientClose => self.close_client(client),
            CommandView::ResponseData(data) => self.forward_data(data),
            CommandView::HttpResponse(response) => self.http_response(response),
            CommandView::SwitchProtocolVersion(version) => self.switch_protocol_version(
                client,
                version,
            ),
        }
    }

    /// The loop goes on with the actions of an outcome.
    pub open spec fn proceed(outcome: Outcome) -> Turn {
        Turn { state: outcome.state, step: StepView::Continue(outcome.actions) }
    }

    /// One turn of the loop. The loop ends when the command channel is
    /// closed, when accepting fails and when it is told to stop; it fails
    /// when the channel of the filter tasks is closed. A connection that
    /// finds no free id is refused, and the loop goes on. A message that
    /// could not be sent costs the client its registration.
    pub open spec fn step(self, event: EventView) -> Turn {
        match event {
            EventView::Command(None) => Turn { state: self, step: StepView::Stop },
            EventView::Command(Some(command)) => Self::proceed(
                self.handle_command(command.client_id, command.command),
            ),
            EventView::Accept(None) => Turn { state: self, step: StepView::Stop },
            EventView::Accept(Some(accepted)) => match self.incoming_connection(
                accepted.peer,
                accepted.original_destination,
                accepted.local_address,
            ) {
                Some(outcome) => Self::proceed(outcome),
                None => Turn {
                    state: self,
                    step: StepView::Refused(AgentError::ConnectionLimitReached),
                },
            },
            EventView::Read { connection_id, incoming } => Self::proceed(
                self.forward_incoming_tcp_data(connection_id, incoming),
            ),
            EventView::HttpRequest(None) => Turn {
                state: self,
                step: StepView::Failed(AgentError::HttpRequestReceiverClosed),
            },
            EventView::HttpRequest(Some(request)) => Self::proceed(
                self.forward_stolen_http_request(request.client_id, request.request),
            ),
            EventView::HttpClose(connection_id) => Self::proceed(
                self.http_connection_closed(connection_id),
            ),
            EventView::RedirectionAdded { client_id, port } => Self::proceed(
                self.redirection_added(client_id, port),
            ),
            EventView::RedirectionFailed { client_id, port, message } => Self::proceed(
                self.redirection_failed(client_id, port, message),
            ),
            EventView::SendFailed { client_id } => Self::proceed(self.close_client(client_id)),
            EventView::Cancelled => Turn { state: self, step: StepView::Stop },
        }
    }
}

} // verus!
