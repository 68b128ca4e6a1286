//! The stealer: the tables of ports, clients and connections, and the
//! handler of each event.

use crate::action::{
    actions_view, append_actions, bytes_contents, chunk_to_vec, push_action, Accepted, Action,
    AgentError, Command, Event, HandlerHttpRequest, StealerCommand, Step,
};
use crate::clients::ClientRegistry;
use crate::filter::{filters_view, HttpFilter};
use crate::fs::parse_flag;
use crate::index_allocator::IndexAllocator;
use crate::model::{
    close_notice, closing, dropping, registered_in, removal, ReadView, StealerView,
};
use crate::preservation::{
    lemma_close_client_wf, lemma_connection_ended_wf, lemma_connection_unsubscribe_wf,
    lemma_deliver_http_request_wf,
    lemma_filter_connection_wf, lemma_http_connection_closed_wf, lemma_initial_wf,
    lemma_http_response_wf, lemma_new_client_wf, lemma_port_unsubscribe_wf,
    lemma_redirection_failed_wf, lemma_switch_protocol_version_wf,
    lemma_steal_connection_wf, lemma_subscribe_wf,
};
use crate::protocol::{
    localhost, ClientId, ConnectionId, DaemonTcp, HttpFilterView, HttpRequest, HttpResponse,
    IpAddress, NewTcpConnection, Port, RequestId, SocketAddress, StealType, SubscribeError,
    SubscribeErrorView, TcpClose, TcpData,
};
use crate::relation::Relation;
use crate::subscriptions::{PortSubscription, PortSubscriptions};
use crate::version::ProtocolVersion;
use std::collections::HashMap;
use std::collections::HashSet;
use vstd::prelude::*;

verus! {

/// The number of connection ids: at most so many stolen connections are
/// live at once.
pub const CONNECTION_ID_CAP: usize = 100;

/// The depth of the channel on which filter tasks send matched requests.
pub const HTTP_REQUEST_CHANNEL_DEPTH: usize = 1024;

/// The depth of the channel on which filter tasks announce their end.
pub const HTTP_CLOSE_CHANNEL_DEPTH: usize = 1024;

/// The depth of the queue of accepted connections.
pub const ACCEPT_QUEUE_DEPTH: usize = 4;

/// The environment variable that says whether connections that exist when a
/// redirection is installed are cut, so that they come again and are stolen.
pub const FLUSH_CONNECTIONS_VARIABLE: &'static str = "MIRRORD_AGENT_STEALER_FLUSH_CONNECTIONS";

/// Whether existing connections are to be cut, from the value of
/// `FLUSH_CONNECTIONS_VARIABLE`: only if it is set to `true`.
pub fn flush_connections(value: Option<&str>) -> (r: bool)
    ensures
        r == (value matches Some(text) && text@ == "true"@),
{
    match value {
        Some(text) => match parse_flag(text) {
            Some(flag) => flag,
            None => false,
        },
        None => false,
    }
}

/// What was read from a connection, by its view.
pub open spec fn chunk_view(incoming: Option<Result<bytes::Bytes, String>>) -> ReadView {
    match incoming {
        Some(Ok(chunk)) => Some(Ok(bytes_contents(chunk))),
        Some(Err(message)) => Some(Err(message@)),
        None => None,
    }
}

/// What was read from a connection and copied, by its view.
pub open spec fn read_view(incoming: Option<Result<Vec<u8>, String>>) -> ReadView {
    match incoming {
        Some(Ok(bytes)) => Some(Ok(bytes@)),
        Some(Err(message)) => Some(Err(message@)),
        None => None,
    }
}

/// A compiled filter, the lack of one, or the error of compiling it, by its
/// view.
pub open spec fn filter_result_view(filter: Result<Option<HttpFilter>, SubscribeError>) -> Result<
    Option<HttpFilterView>,
    SubscribeErrorView,
> {
    match filter {
        Ok(Some(f)) => Ok(Some(f@)),
        Ok(None) => Ok(None),
        Err(e) => Err(e@),
    }
}

fn removal_actions(ports: &Vec<Port>) -> (r: Vec<Action>)
    ensures
        actions_view(r@) == ports@.map_values(removal()),
{
    let mut actions: Vec<Action> = Vec::new();
    let mut i: usize = 0;
    assert(actions_view(actions@) =~= ports@.take(0).map_values(removal()));
    while i < ports.len()
        invariant
            i <= ports@.len(),
            actions_view(actions@) == ports@.take(i as int).map_values(removal()),
        decreases ports@.len() - i,
    {
        proof {
            ports@.lemma_take_succ_push(i as int);
            ports@.take(i as int).lemma_push_map_commute(removal(), ports@[i as int]);
        }
        push_action(&mut actions, Action::RemoveRedirection { port: ports[i] });
        i += 1;
    }
    proof {
        ports@.lemma_take_len();
    }
    actions
}

fn dropping_actions(connection_id: ConnectionId, requests: &Vec<RequestId>) -> (r: Vec<Action>)
    ensures
        actions_view(r@) == requests@.map_values(dropping(connection_id)),
{
    let mut actions: Vec<Action> = Vec::new();
    let mut i: usize = 0;
    assert(actions_view(actions@) =~= requests@.take(0).map_values(dropping(connection_id)));
    while i < requests.len()
        invariant
            i <= requests@.len(),
            actions_view(actions@) == requests@.take(i as int).map_values(
                dropping(connection_id),
            ),
        decreases requests@.len() - i,
    {
        proof {
            requests@.lemma_take_succ_push(i as int);
            requests@.take(i as int).lemma_push_map_commute(
                dropping(connection_id),
                requests@[i as int],
            );
        }
        push_action(
            &mut actions,
            Action::DropResponse { connection_id, request_id: requests[i] },
        );
        i += 1;
    }
    proof {
        requests@.lemma_take_len();
    }
    actions
}

fn notice_actions(
    clients: &ClientRegistry,
    connection_id: ConnectionId,
    noted: &Vec<ClientId>,
) -> (r: Vec<Action>)
    ensures
        actions_view(r@) == noted@.filter(registered_in(clients@)).map_values(
            close_notice(connection_id),
        ),
{
    let mut actions: Vec<Action> = Vec::new();
    let mut i: usize = 0;
    proof {
        crate::relation::lemma_filter_none(noted@.take(0), registered_in(clients@));
        assert(actions_view(actions@) =~= noted@.take(0).filter(
            registered_in(clients@),
        ).map_values(close_notice(connection_id)));
    }
    while i < noted.len()
        invariant
            i <= noted@.len(),
            actions_view(actions@) == noted@.take(i as int).filter(
                registered_in(clients@),
            ).map_values(close_notice(connection_id)),
        decreases noted@.len() - i,
    {
        let client_id = noted[i];
        proof {
            noted@.lemma_take_succ_push(i as int);
            noted@.take(i as int).lemma_filter_push(client_id, registered_in(clients@));
            noted@.take(i as int).filter(registered_in(clients@)).lemma_push_map_commute(
                close_notice(connection_id),
                client_id,
            );
        }
        if clients.contains(client_id) {
            push_action(
                &mut actions,
                Action::Send {
                    client_id,
                    message: DaemonTcp::Close(TcpClose { connection_id }),
                },
            );
        }
        i += 1;
    }
    proof {
        noted@.lemma_take_len();
    }
    actions
}

/// Drops the sockets, owners and ids of `connections`, and returns the
/// actions that close them.
fn drop_connections(
    index_allocator: &mut IndexAllocator,
    write_streams: &mut HashSet<ConnectionId>,
    read_streams: &mut HashSet<ConnectionId>,
    connection_clients: &mut HashMap<ConnectionId, ClientId>,
    connections: &Vec<ConnectionId>,
) -> (r: Vec<Action>)
    requires
        old(index_allocator).wf(),
    ensures
        final(index_allocator).wf(),
        final(index_allocator).capacity() == old(index_allocator).capacity(),
        final(index_allocator)@ == old(index_allocator)@.difference(connections@.to_set()),
        final(write_streams)@ == old(write_streams)@.difference(connections@.to_set()),
        final(read_streams)@ == old(read_streams)@.difference(connections@.to_set()),
        final(connection_clients)@ == old(connection_clients)@.remove_keys(connections@.to_set()),
        actions_view(r@) == connections@.map_values(closing()),
{
    let mut actions: Vec<Action> = Vec::new();
    let mut i: usize = 0;
    proof {
        assert(connections@.take(0).to_set() =~= Set::<ConnectionId>::empty());
        assert(actions_view(actions@) =~= connections@.take(0).map_values(closing()));
        assert(index_allocator@ =~= index_allocator@.difference(connections@.take(0).to_set()));
        assert(write_streams@ =~= write_streams@.difference(connections@.take(0).to_set()));
        assert(read_streams@ =~= read_streams@.difference(connections@.take(0).to_set()));
        assert(connection_clients@ =~= connection_clients@.remove_keys(
            connections@.take(0).to_set(),
        ));
    }
    while i < connections.len()
        invariant
            i <= connections@.len(),
            index_allocator.wf(),
            index_allocator.capacity() == old(index_allocator).capacity(),
            index_allocator@ == old(index_allocator)@.difference(
                connections@.take(i as int).to_set(),
            ),
            write_streams@ == old(write_streams)@.difference(connections@.take(i as int).to_set()),
            read_streams@ == old(read_streams)@.difference(connections@.take(i as int).to_set()),
            connection_clients@ == old(connection_clients)@.remove_keys(
                connections@.take(i as int).to_set(),
            ),
            actions_view(actions@) == connections@.take(i as int).map_values(closing()),
        decreases connections@.len() - i,
    {
        let connection_id = connections[i];
        proof {
            connections@.lemma_take_succ_push(i as int);
            connections@.take(i as int).lemma_push_to_set_commute(connection_id);
            connections@.take(i as int).lemma_push_map_commute(closing(), connection_id);
        }
        let ghost before = connections@.take(i as int).to_set();
        let ghost after = connections@.take(i + 1).to_set();
        write_streams.remove(&connection_id);
        read_streams.remove(&connection_id);
        index_allocator.free_index(connection_id);
        connection_clients.remove(&connection_id);
        push_action(&mut actions, Action::CloseConnection { connection_id });
        proof {
            assert(after =~= before.insert(connection_id));
            assert(index_allocator@ =~= old(index_allocator)@.difference(after));
            assert(write_streams@ =~= old(write_streams)@.difference(after));
            assert(read_streams@ =~= old(read_streams)@.difference(after));
            assert(connection_clients@ =~= old(connection_clients)@.remove_keys(after));
        }
        i += 1;
    }
    proof {
        connections@.lemma_take_len();
    }
    actions
}

/// The stealer's tables. Each handler changes them as its event asks and
/// returns what the caller has to do.
pub struct TcpConnectionStealer {
    port_subscriptions: PortSubscriptions,
    clients: ClientRegistry,
    index_allocator: IndexAllocator,
    write_streams: HashSet<ConnectionId>,
    read_streams: HashSet<ConnectionId>,
    connection_clients: HashMap<ConnectionId, ClientId>,
    client_connections: Relation,
    http_connection_clients: Relation,
    http_response_senders: Relation,
}

impl TcpConnectionStealer {
    /// The tables as a mathematical state.
    pub closed spec fn view(&self) -> StealerView {
        StealerView {
            port_subscriptions: self.port_subscriptions@,
            clients: self.clients@,
            capacity: self.index_allocator.capacity(),
            allocated: self.index_allocator@,
            write_streams: self.write_streams@,
            read_streams: self.read_streams@,
            connection_clients: self.connection_clients@,
            client_connections: self.client_connections@,
            http_connection_clients: self.http_connection_clients@,
            http_response_senders: self.http_response_senders@,
        }
    }

    /// The tables meet their invariant.
    pub closed spec fn wf(&self) -> bool {
        &&& self.index_allocator.wf()
        &&& self@.wf()
    }

    /// What `wf` says of the state.
    pub proof fn lemma_wf(&self)
        requires
            self.wf(),
        ensures
            self@.wf(),
    {
    }

    /// A stealer that holds no port, knows no client and has every
    /// connection id free.
    pub fn new() -> (r: Self)
        ensures
            r.wf(),
            r@ == StealerView::initial(CONNECTION_ID_CAP as nat),
    {
        proof {
            lemma_initial_wf(CONNECTION_ID_CAP as nat);
        }
        TcpConnectionStealer {
            port_subscriptions: PortSubscriptions::new(),
            clients: ClientRegistry::new(),
            index_allocator: IndexAllocator::new(CONNECTION_ID_CAP),
            write_streams: HashSet::new(),
            read_streams: HashSet::new(),
            connection_clients: HashMap::new(),
            client_connections: Relation::new(),
            http_connection_clients: Relation::new(),
            http_response_senders: Relation::new(),
        }
    }

    /// How `port` is held, if it is.
    pub fn subscription(&self, port: Port) -> (r: Option<&PortSubscription>)
        requires
            self.wf(),
        ensures
            match r {
                Some(subscription) => crate::subscriptions::subscription_at(
                    self@.port_subscriptions,
                    port,
                ) == Some(subscription@),
                None => crate::subscriptions::subscription_at(self@.port_subscriptions, port)
                    is None,
            },
    {
        self.port_subscriptions.get(port)
    }

    /// Whether `client` is registered.
    pub fn has_client(&self, client: ClientId) -> (r: bool)
        ensures
            r == self@.clients.contains_key(client),
    {
        self.clients.contains(client)
    }

    /// The protocol version that `client` speaks, if it is registered.
    pub fn protocol_version(&self, client: ClientId) -> (r: Option<&ProtocolVersion>)
        ensures
            match r {
                Some(version) => self@.clients.contains_key(client) && self@.clients[client]
                    == version@,
                None => !self@.clients.contains_key(client),
            },
    {
        self.clients.version(client)
    }

    /// Whether `connection_id` is in use.
    pub fn is_allocated(&self, connection_id: ConnectionId) -> (r: bool)
        requires
            self.wf(),
        ensures
            r == self@.allocated.contains(connection_id),
    {
        self.index_allocator.is_allocated(connection_id)
    }

    /// The client that owns the whole stolen connection `connection_id`, if
    /// the id names one.
    pub fn connection_owner(&self, connection_id: ConnectionId) -> (r: Option<ClientId>)
        ensures
            r == if self@.is_raw(connection_id) {
                Some(self@.connection_clients[connection_id])
            } else {
                None::<ClientId>
            },
    {
        match self.connection_clients.get(&connection_id) {
            Some(client) => Some(*client),
            None => None,
        }
    }

    /// The whole stolen connections that `client` owns, the smallest id
    /// first.
    pub fn connections_of(&self, client: ClientId) -> (r: Vec<ConnectionId>)
        ensures
            r@ == crate::relation::seconds_of(self@.client_connections, client),
    {
        self.client_connections.seconds(client)
    }

    /// The clients that were sent a request of the filtered connection
    /// `connection_id`, the smallest id first.
    pub fn clients_of(&self, connection_id: ConnectionId) -> (r: Vec<ClientId>)
        ensures
            r@ == crate::relation::seconds_of(self@.http_connection_clients, connection_id),
    {
        self.http_connection_clients.seconds(connection_id)
    }

    /// Whether the response to the request `request_id` of `connection_id`
    /// is awaited.
    pub fn awaits_response(&self, connection_id: ConnectionId, request_id: RequestId) -> (r: bool)
        ensures
            r == self@.http_response_senders.contains((connection_id, request_id)),
    {
        self.http_response_senders.contains(connection_id, request_id)
    }

    /// The action that sends `message` to `client`, if the client is
    /// registered; nothing otherwise.
    pub fn send_message_to_single_client(&self, client: ClientId, message: DaemonTcp) -> (r: Vec<
        Action,
    >)
        ensures
            actions_view(r@) == self@.send(client, message@),
    {
        let mut actions: Vec<Action> = Vec::new();
        if self.clients.contains(client) {
            push_action(&mut actions, Action::Send { client_id: client, message });
        }
        assert(actions_view(actions@) =~= self@.send(client, message@));
        actions
    }

    /// Registers a client.
    pub fn new_client(&mut self, client: ClientId, version: ProtocolVersion)
        requires
            old(self).wf(),
        ensures
            final(self).wf(),
            final(self)@ == old(self)@.new_client(client, version@).state,
    {
        proof {
            lemma_new_client_wf(self@, client, version@);
        }
        self.clients.insert(client, version);
    }

    /// Notes the new protocol version of a client; a client that is not
    /// registered stays so.
    pub fn switch_protocol_version(&mut self, client: ClientId, version: ProtocolVersion)
        requires
            old(self).wf(),
        ensures
            final(self).wf(),
            final(self)@ == old(self)@.switch_protocol_version(client, version@).state,
    {
        proof {
            lemma_switch_protocol_version_wf(self@, client, version@);
        }
        if self.clients.contains(client) {
            self.clients.insert(client, version);
        }
    }

    /// Enters a subscription whose filter, if it has one, is compiled
    /// already, or answers with the error of compiling it. A free port is
    /// taken, and the caller is asked to install its redirection; a filter
    /// joins the filters of a filtered port; everything else is turned down.
    pub fn subscribe(
        &mut self,
        client: ClientId,
        port: Port,
        filter: Result<Option<HttpFilter>, SubscribeError>,
    ) -> (r: Vec<Action>)
        requires
            old(self).wf(),
        ensures
            final(self).wf(),
            final(self)@ == old(self)@.subscribe(client, port, filter_result_view(filter)).state,
            actions_view(r@) == old(self)@.subscribe(
                client,
                port,
                filter_result_view(filter),
            ).actions,
    {
        proof {
            lemma_subscribe_wf(self@, client, port, filter_result_view(filter));
        }
        match filter {
            Err(error) => self.send_message_to_single_client(
                client,
                DaemonTcp::SubscribeResult(Err(error)),
            ),
            Ok(filter) => {
                match self.port_subscriptions.add(client, port, filter) {
                    crate::subscriptions::AddOutcome::NewPort => {
                        let mut actions: Vec<Action> = Vec::new();
                        push_action(
                            &mut actions,
                            Action::AddRedirection { port, client_id: client },
                        );
                        assert(actions_view(actions@) =~= seq![
                            crate::action::ActionView::AddRedirection { port, client_id: client },
                        ]);
                        actions
                    },
                    crate::subscriptions::AddOutcome::Joined => self.send_message_to_single_client(
                        client,
                        DaemonTcp::SubscribeResult(Ok(())),
                    ),
                    crate::subscriptions::AddOutcome::Rejected(error) => {
                        self.send_message_to_single_client(
                            client,
                            DaemonTcp::SubscribeResult(Err(error)),
                        )
                    },
                }
            },
        }
    }

    /// Subscribes `client` as `steal` asks: compiles the filter, if there is
    /// one, and enters the subscription. A pattern that is no regular
    /// expression is answered with its error, and nothing changes.
    pub fn port_subscribe(&mut self, client: ClientId, steal: StealType) -> (r: Vec<Action>)
        requires
            old(self).wf(),
        ensures
            final(self).wf(),
            final(self)@ == old(self)@.port_subscribe(client, steal@).state,
            actions_view(r@) == old(self)@.port_subscribe(client, steal@).actions,
    {
        match steal {
            StealType::All(port) => self.subscribe(client, port, Ok(None)),
            StealType::FilteredHttp(port, pattern) => {
                match HttpFilter::new_header_filter(pattern.as_str()) {
                    Ok(filter) => self.subscribe(client, port, Ok(Some(filter))),
                    Err(message) => self.subscribe(
                        client,
                        port,
                        Err(SubscribeError::BadHttpFilterRegex(pattern, message)),
                    ),
                }
            },
            StealType::FilteredHttpEx(port, spec) => {
                match HttpFilter::try_from_spec(&spec) {
                    Ok(filter) => self.subscribe(client, port, Ok(Some(filter))),
                    Err(message) => self.subscribe(
                        client,
                        port,
                        Err(SubscribeError::BadHttpFilterExRegex(spec, message)),
                    ),
                }
            },
        }
    }

    /// The redirection that a subscription of `client` waited for is
    /// installed: the client is told that it holds the port.
    pub fn redirection_added(&mut self, client: ClientId, port: Port) -> (r: Vec<Action>)
        requires
            old(self).wf(),
        ensures
            final(self).wf(),
            final(self)@ == old(self)@.redirection_added(client, port).state,
            actions_view(r@) == old(self)@.redirection_added(client, port).actions,
    {
        self.send_message_to_single_client(client, DaemonTcp::SubscribeResult(Ok(())))
    }

    /// The redirection that a subscription of `client` waited for could not
    /// be installed: the client loses its stake in the port and is told why.
    pub fn redirection_failed(&mut self, client: ClientId, port: Port, message: String) -> (r:
        Vec<Action>)
        requires
            old(self).wf(),
        ensures
            final(self).wf(),
            final(self)@ == old(self)@.redirection_failed(client, port, message@).state,
            actions_view(r@) == old(self)@.redirection_failed(client, port, message@).actions,
    {
        proof {
            lemma_redirection_failed_wf(self@, client, port, message@);
        }
        let _ = self.port_subscriptions.remove(client, port);
        self.send_message_to_single_client(
            client,
            DaemonTcp::SubscribeResult(Err(SubscribeError::RedirectionFailed(port, message))),
        )
    }

    /// Takes the stake of `client` out of `port`, and asks for the
    /// redirection to be removed if nobody holds the port any more.
    pub fn port_unsubscribe(&mut self, client: ClientId, port: Port) -> (r: Vec<Action>)
        requires
            old(self).wf(),
        ensures
            final(self).wf(),
            final(self)@ == old(self)@.port_unsubscribe(client, port).state,
            actions_view(r@) == old(self)@.port_unsubscribe(client, port).actions,
    {
        proof {
            lemma_port_unsubscribe_wf(self@, client, port);
        }
        let ports = self.port_subscriptions.remove(client, port);
        removal_actions(&ports)
    }

    /// Drops the socket, the owner and the id of a connection, and returns
    /// the owner it had. The owner's list of connections is left to the
    /// caller.
    fn remove_connection(&mut self, connection_id: ConnectionId) -> (r: Option<ClientId>)
        requires
            old(self).index_allocator.wf(),
        ensures
            final(self).index_allocator.wf(),
            final(self)@ == (StealerView {
                allocated: old(self)@.allocated.remove(connection_id),
                write_streams: old(self)@.write_streams.remove(connection_id),
                read_streams: old(self)@.read_streams.remove(connection_id),
                connection_clients: old(self)@.connection_clients.remove(connection_id),
                ..old(self)@
            }),
            final(self).client_connections == old(self).client_connections,
            r == if old(self)@.connection_clients.contains_key(connection_id) {
                Some(old(self)@.connection_clients[connection_id])
            } else {
                None::<ClientId>
            },
    {
        self.write_streams.remove(&connection_id);
        self.read_streams.remove(&connection_id);
        self.index_allocator.free_index(connection_id);
        self.connection_clients.remove(&connection_id)
    }

    /// Closes a connection at a client's wish: takes it out of every table
    /// and frees its id. The socket of a whole stolen connection is dropped.
    /// A connection of a filter task ends as it does when its task ends: the
    /// registered clients that were sent a request of it are told, and the
    /// response sinks still kept for it are dropped. An id that is not in use
    /// is passed over.
    pub fn connection_unsubscribe(&mut self, connection_id: ConnectionId) -> (r: Vec<Action>)
        requires
            old(self).wf(),
        ensures
            final(self).wf(),
            final(self)@ == old(self)@.connection_unsubscribe(connection_id).state,
            actions_view(r@) == old(self)@.connection_unsubscribe(connection_id).actions,
    {
        proof {
            lemma_connection_unsubscribe_wf(self@, connection_id);
        }
        if self.connection_clients.contains_key(&connection_id) {
            let mut actions: Vec<Action> = Vec::new();
            if let Some(client) = self.remove_connection(connection_id) {
                self.client_connections.remove(client, connection_id);
            }
            push_action(&mut actions, Action::CloseConnection { connection_id });
            assert(actions_view(actions@) =~= old(self)@.connection_unsubscribe(
                connection_id,
            ).actions);
            actions
        } else {
            self.http_connection_closed(connection_id)
        }
    }

    /// The end of a whole stolen connection, by the end of its stream or by
    /// an error on its socket: its owner is told, its socket dropped, and its
    /// id freed. An id that names no such connection is passed over.
    pub fn connection_ended(&mut self, connection_id: ConnectionId) -> (r: Vec<Action>)
        requires
            old(self).wf(),
        ensures
            final(self).wf(),
            final(self)@ == old(self)@.connection_ended(connection_id).state,
            actions_view(r@) == old(self)@.connection_ended(connection_id).actions,
    {
        proof {
            lemma_connection_ended_wf(self@, connection_id);
        }
        let mut actions: Vec<Action> = Vec::new();
        if self.connection_clients.contains_key(&connection_id) {
            if let Some(client) = self.remove_connection(connection_id) {
                self.client_connections.remove(client, connection_id);
                let notice = self.send_message_to_single_client(
                    client,
                    DaemonTcp::Close(TcpClose { connection_id }),
                );
                append_actions(&mut actions, notice);
            }
            push_action(&mut actions, Action::CloseConnection { connection_id });
        }
        assert(actions_view(actions@) =~= old(self)@.connection_ended(connection_id).actions);
        actions
    }

    /// Forgets `client`: takes its stakes out of every port, closes the
    /// connections it owns and drops its registration.
    pub fn close_client(&mut self, client: ClientId) -> (r: Vec<Action>)
        requires
            old(self).wf(),
        ensures
            final(self).wf(),
            final(self)@ == old(self)@.close_client(client).state,
            actions_view(r@) == old(self)@.close_client(client).actions,
    {
        proof {
            lemma_close_client_wf(self@, client);
        }
        let ports = self.port_subscriptions.remove_all(client);
        let mut actions = removal_actions(&ports);
        let connections = self.client_connections.remove_first(client);
        let closings = drop_connections(
            &mut self.index_allocator,
            &mut self.write_streams,
            &mut self.read_streams,
            &mut self.connection_clients,
            &connections,
        );
        append_actions(&mut actions, closings);
        self.clients.remove(client);
        push_action(&mut actions, Action::DropClient { client_id: client });
        assert(actions_view(actions@) =~= old(self)@.close_client(client).actions);
        actions
    }

    /// Bytes from a client for the remote end of a connection: to be written
    /// if the connection is still there, dropped otherwise.
    pub fn forward_data(&mut self, data: TcpData) -> (r: Vec<Action>)
        requires
            old(self).wf(),
        ensures
            final(self).wf(),
            final(self)@ == old(self)@.forward_data(data@).state,
            actions_view(r@) == old(self)@.forward_data(data@).actions,
    {
        let mut actions: Vec<Action> = Vec::new();
        if self.write_streams.contains(&data.connection_id) {
            push_action(&mut actions, Action::Write(data));
        }
        assert(actions_view(actions@) =~= old(self)@.forward_data(data@).actions);
        actions
    }

    /// A client's answer to a stolen request: to be handed to the sink kept
    /// for the request, which is then forgotten. An answer to a request that
    /// is not awaited is dropped.
    pub fn http_response(&mut self, response: HttpResponse) -> (r: Vec<Action>)
        requires
            old(self).wf(),
        ensures
            final(self).wf(),
            final(self)@ == old(self)@.http_response(response@).state,
            actions_view(r@) == old(self)@.http_response(response@).actions,
    {
        proof {
            lemma_http_response_wf(self@, response@);
        }
        let mut actions: Vec<Action> = Vec::new();
        if self.http_response_senders.contains(response.connection_id, response.request_id) {
            self.http_response_senders.remove(response.connection_id, response.request_id);
            push_action(&mut actions, Action::Respond(response));
        }
        assert(actions_view(actions@) =~= old(self)@.http_response(response@).actions);
        actions
    }

    /// What was read from a whole stolen connection and copied: bytes go to
    /// the owner as they are; an error or the end of the stream ends the
    /// connection. An id that names no such connection is passed over.
    pub fn forward_read(
        &mut self,
        connection_id: ConnectionId,
        incoming: Option<Result<Vec<u8>, String>>,
    ) -> (r: Vec<Action>)
        requires
            old(self).wf(),
        ensures
            final(self).wf(),
            final(self)@ == old(self)@.forward_incoming_tcp_data(
                connection_id,
                read_view(incoming),
            ).state,
            actions_view(r@) == old(self)@.forward_incoming_tcp_data(
                connection_id,
                read_view(incoming),
            ).actions,
    {
        match incoming {
            Some(Ok(bytes)) => {
                match self.connection_clients.get(&connection_id) {
                    Some(client) => self.send_message_to_single_client(
                        *client,
                        DaemonTcp::Data(TcpData { connection_id, bytes }),
                    ),
                    None => {
                        let actions: Vec<Action> = Vec::new();
                        assert(actions_view(actions@) =~= Seq::empty());
                        actions
                    },
                }
            },
            _ => self.connection_ended(connection_id),
        }
    }

    /// What was read from a whole stolen connection: a chunk goes to the
    /// owner byte for byte; an error or the end of the stream ends the
    /// connection.
    pub fn forward_incoming_tcp_data(
        &mut self,
        connection_id: ConnectionId,
        incoming: Option<Result<bytes::Bytes, String>>,
    ) -> (r: Vec<Action>)
        requires
            old(self).wf(),
        ensures
            final(self).wf(),
            final(self)@ == old(self)@.forward_incoming_tcp_data(
                connection_id,
                chunk_view(incoming),
            ).state,
            actions_view(r@) == old(self)@.forward_incoming_tcp_data(
                connection_id,
                chunk_view(incoming),
            ).actions,
    {
        let copied = match incoming {
            Some(Ok(chunk)) => Some(Ok(chunk_to_vec(&chunk))),
            Some(Err(message)) => Some(Err(message)),
            None => None,
        };
        self.forward_read(connection_id, copied)
    }

    /// Sends a stolen request on to its client, framed or not as `framed`
    /// says, and notes that its response is awaited. The request is dropped
    /// if the client is not registered or if its connection is none of a
    /// filter task.
    pub fn deliver_http_request(&mut self, request: HandlerHttpRequest, framed: bool) -> (r: Vec<
        Action,
    >)
        requires
            old(self).wf(),
        ensures
            final(self).wf(),
            final(self)@ == old(self)@.deliver_http_request(
                request.client_id,
                request.request@,
                framed,
            ).state,
            actions_view(r@) == old(self)@.deliver_http_request(
                request.client_id,
                request.request@,
                framed,
            ).actions,
    {
        proof {
            lemma_deliver_http_request_wf(self@, request.client_id, request.request@, framed);
        }
        let HandlerHttpRequest { client_id, request } = request;
        let connection_id = request.connection_id;
        let request_id = request.request_id;
        let mut actions: Vec<Action> = Vec::new();
        let filtered = self.index_allocator.is_allocated(connection_id)
            && !self.connection_clients.contains_key(&connection_id);
        if filtered && self.clients.contains(client_id) {
            self.http_connection_clients.insert(connection_id, client_id);
            self.http_response_senders.insert(connection_id, request_id);
            push_action(&mut actions, Action::AwaitResponse { connection_id, request_id });
            let message = if framed {
                DaemonTcp::HttpRequestFramed(request)
            } else {
                DaemonTcp::HttpRequest(request)
            };
            push_action(&mut actions, Action::Send { client_id, message });
        }
        assert(actions_view(actions@) =~= old(self)@.deliver_http_request(
            client_id,
            request@,
            framed,
        ).actions);
        actions
    }

    /// Sends a request that a filter task matched on to its client, in the
    /// form that the client's protocol version calls for. `None` in place of
    /// a request says that the channel of the filter tasks is closed, which
    /// is an error.
    pub fn forward_stolen_http_request(&mut self, request: Option<HandlerHttpRequest>) -> (r:
        Result<Vec<Action>, AgentError>)
        requires
            old(self).wf(),
        ensures
            final(self).wf(),
            match request {
                Some(request) => {
                    &&& r is Ok
                    &&& final(self)@ == old(self)@.forward_stolen_http_request(
                        request.client_id,
                        request.request@,
                    ).state
                    &&& actions_view(r->Ok_0@) == old(self)@.forward_stolen_http_request(
                        request.client_id,
                        request.request@,
                    ).actions
                },
                None => r == Err::<Vec<Action>, AgentError>(AgentError::HttpRequestReceiverClosed)
                    && final(self)@ == old(self)@,
            },
    {
        match request {
            None => Err(AgentError::HttpRequestReceiverClosed),
            Some(request) => {
                let framed = match self.clients.version(request.client_id) {
                    Some(version) => version.takes_framed(),
                    None => false,
                };
                Ok(self.deliver_http_request(request, framed))
            },
        }
    }

    /// The end of a filtered connection: the registered clients that were
    /// sent a request of it are told, the smallest id first; the response
    /// sinks still kept for it are dropped; its id is freed. An id that
    /// names no connection of a filter task is passed over.
    pub fn http_connection_closed(&mut self, connection_id: ConnectionId) -> (r: Vec<Action>)
        requires
            old(self).wf(),
        ensures
            final(self).wf(),
            final(self)@ == old(self)@.http_connection_closed(connection_id).state,
            actions_view(r@) == old(self)@.http_connection_closed(connection_id).actions,
    {
        proof {
            lemma_http_connection_closed_wf(self@, connection_id);
        }
        let mut actions: Vec<Action> = Vec::new();
        let filtered = self.index_allocator.is_allocated(connection_id)
            && !self.connection_clients.contains_key(&connection_id);
        if filtered {
            let noted = self.http_connection_clients.remove_first(connection_id);
            let notices = notice_actions(&self.clients, connection_id, &noted);
            let requests = self.http_response_senders.remove_first(connection_id);
            let drops = dropping_actions(connection_id, &requests);
            self.index_allocator.free_index(connection_id);
            append_actions(&mut actions, notices);
            append_actions(&mut actions, drops);
        }
        assert(actions_view(actions@) =~= old(self)@.http_connection_closed(
            connection_id,
        ).actions);
        actions
    }

    /// Steals a connection to a port that `client` holds alone: gives it the
    /// smallest free id, enters it in the tables and tells the client. If
    /// the client is not registered, what is left of it is cleared away and
    /// the connection is not kept. Fails, changing nothing, when every id is
    /// in use.
    pub fn steal_connection(
        &mut self,
        client: ClientId,
        peer: SocketAddress,
        port: Port,
        local_address: IpAddress,
    ) -> (r: Result<Vec<Action>, AgentError>)
        requires
            old(self).wf(),
        ensures
            final(self).wf(),
            match old(self)@.steal_connection(client, peer, port, local_address) {
                Some(outcome) => {
                    &&& r is Ok
                    &&& final(self)@ == outcome.state
                    &&& actions_view(r->Ok_0@) == outcome.actions
                },
                None => r == Err::<Vec<Action>, AgentError>(AgentError::ConnectionLimitReached)
                    && final(self)@ == old(self)@,
            },
    {
        proof {
            lemma_steal_connection_wf(self@, client, peer, port, local_address);
        }
        match self.index_allocator.next_index() {
            None => Err(AgentError::ConnectionLimitReached),
            Some(connection_id) => {
                if self.clients.contains(client) {
                    self.write_streams.insert(connection_id);
                    self.read_streams.insert(connection_id);
                    self.connection_clients.insert(connection_id, client);
                    self.client_connections.insert(client, connection_id);
                    let mut actions: Vec<Action> = Vec::new();
                    push_action(&mut actions, Action::OpenConnection { connection_id });
                    push_action(
                        &mut actions,
                        Action::Send {
                            client_id: client,
                            message: DaemonTcp::NewConnection(
                                NewTcpConnection {
                                    connection_id,
                                    remote_address: peer.ip,
                                    destination_port: port,
                                    source_port: peer.port,
                                    local_address,
                                },
                            ),
                        },
                    );
                    assert(actions_view(actions@) =~= old(self)@.steal_connection(
                        client,
                        peer,
                        port,
                        local_address,
                    ).unwrap().actions);
                    Ok(actions)
                } else {
                    self.index_allocator.free_index(connection_id);
                    assert(self.index_allocator@ =~= old(self).index_allocator@);
                    Ok(self.close_client(client))
                }
            },
        }
    }

    /// Deals with an accepted connection as the port it was going to is
    /// held: stolen as a whole for the client that holds the port alone,
    /// handed to a new filter task where the port is filtered, and not kept
    /// where nobody holds the port. Fails, changing nothing, when the port is
    /// held and every id is in use.
    pub fn incoming_connection(&mut self, accepted: Accepted) -> (r: Result<
        Vec<Action>,
        AgentError,
    >)
        requires
            old(self).wf(),
        ensures
            final(self).wf(),
            match old(self)@.incoming_connection(
                accepted.peer,
                accepted.original_destination,
                accepted.local_address,
            ) {
                Some(outcome) => {
                    &&& r is Ok
                    &&& final(self)@ == outcome.state
                    &&& actions_view(r->Ok_0@) == outcome.actions
                },
                None => r == Err::<Vec<Action>, AgentError>(AgentError::ConnectionLimitReached)
                    && final(self)@ == old(self)@,
            },
    {
        let port = accepted.original_destination.port;
        let subscription = match self.port_subscriptions.get(port) {
            Some(subscription) => Some(subscription.clone()),
            None => None,
        };
        match subscription {
            None => {
                let actions: Vec<Action> = Vec::new();
                assert(actions_view(actions@) =~= Seq::empty());
                Ok(actions)
            },
            Some(PortSubscription::Unfiltered(client)) => self.steal_connection(
                client,
                accepted.peer,
                port,
                accepted.local_address,
            ),
            Some(PortSubscription::Filtered(filters)) => {
                proof {
                    lemma_filter_connection_wf(self@, port, filters_view(filters@));
                }
                match self.index_allocator.next_index() {
                    None => Err(AgentError::ConnectionLimitReached),
                    Some(connection_id) => {
                        let mut actions: Vec<Action> = Vec::new();
                        push_action(
                            &mut actions,
                            Action::SpawnFilter {
                                connection_id,
                                destination: SocketAddress { ip: localhost(), port },
                                filters,
                            },
                        );
                        assert(actions_view(actions@) =~= old(self)@.filter_connection(
                            port,
                            filters_view(filters@),
                        ).unwrap().actions);
                        Ok(actions)
                    },
                }
            },
        }
    }

    /// Handles a command by the handler of its kind.
    pub fn handle_command(&mut self, command: StealerCommand) -> (r: Vec<Action>)
        requires
            old(self).wf(),
        ensures
            final(self).wf(),
            final(self)@ == old(self)@.handle_command(command.client_id, command.command@).state,
            actions_view(r@) == old(self)@.handle_command(
                command.client_id,
                command.command@,
            ).actions,
    {
        let StealerCommand { client_id, command } = command;
        match command {
            Command::NewClient(version) => {
                self.new_client(client_id, version);
                let actions: Vec<Action> = Vec::new();
                assert(actions_view(actions@) =~= Seq::empty());
                actions
            },
            Command::PortSubscribe(steal) => self.port_subscribe(client_id, steal),
            Command::PortUnsubscribe(port) => self.port_unsubscribe(client_id, port),
            Command::ConnectionUnsubscribe(connection_id) => self.connection_unsubscribe(
                connection_id,
            ),
            Command::ClientClose => self.close_client(client_id),
            Command::ResponseData(data) => self.forward_data(data),
            Command::HttpResponse(response) => self.http_response(response),
            Command::SwitchProtocolVersion(version) => {
                self.switch_protocol_version(client_id, version);
                let actions: Vec<Action> = Vec::new();
                assert(actions_view(actions@) =~= Seq::empty());
                actions
            },
        }
    }

    /// One turn of the stealer's loop: handles the event and says how the
    /// loop goes on.
    pub fn step(&mut self, event: Event) -> (r: Step)
        requires
            old(self).wf(),
        ensures
            final(self).wf(),
            final(self)@ == old(self)@.step(event@).state,
            r@ == old(self)@.step(event@).step,
    {
        match event {
            Event::Command(None) => Step::Stop,
            Event::Command(Some(command)) => Step::Continue(self.handle_command(command)),
            Event::Accept(None) => Step::Stop,
            Event::Accept(Some(accepted)) => match self.incoming_connection(accepted) {
                Ok(actions) => Step::Continue(actions),
                Err(error) => Step::Refused(error),
            },
            Event::Read { connection_id, incoming } => Step::Continue(
                self.forward_incoming_tcp_data(connection_id, incoming),
            ),
            Event::HttpRequest(request) => match self.forward_stolen_http_request(request) {
                Ok(actions) => Step::Continue(actions),
                Err(error) => Step::Failed(error),
            },
            Event::HttpClose(connection_id) => Step::Continue(
                self.http_connection_closed(connection_id),
            ),
            Event::RedirectionAdded { client_id, port } => Step::Continue(
                self.redirection_added(client_id, port),
            ),
            Event::RedirectionFailed { client_id, port, message } => Step::Continue(
                self.redirection_failed(client_id, port, message),
            ),
            Event::SendFailed { client_id } => Step::Continue(self.close_client(client_id)),
            Event::Cancelled => Step::Stop,
        }
    }
}

} // verus!
