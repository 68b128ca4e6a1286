//! Every transition of the stealer keeps the invariant of its tables.

use crate::action::{CommandView, EventView};
use crate::filter::FilterEntryView;
use crate::index_allocator::{lemma_lowest_vacant_from, lowest_vacant};
use crate::model::{compile_steal, ReadView, StealerView};
use crate::protocol::{
    ClientId, ConnectionId, HttpFilterView, HttpRequestView, HttpResponseView, IpAddress, Port,
    RequestId, SocketAddress, StealTypeView, SubscribeErrorView, TcpDataView,
};
use crate::relation::{
    lemma_seconds_of, lemma_with_pair, lemma_without_first, lemma_without_pair, seconds_of,
};
use crate::subscriptions::{lemma_after_add_wf, lemma_after_release_wf};
use crate::version::ProtocolVersionView;
use vstd::prelude::*;

verus! {

/// The initial state meets the invariant.
pub proof fn lemma_initial_wf(capacity: nat)
    requires
        capacity <= u64::MAX,
    ensures
        StealerView::initial(capacity).wf(),
{
    assert forall|first: u64| #[trigger]
        crate::relation::members(Set::<(u64, u64)>::empty(), first).finite() by {
        assert(crate::relation::members(Set::<(u64, u64)>::empty(), first) =~= Set::<
            u64,
        >::empty());
    }
}

/// Registering a client keeps the invariant.
pub proof fn lemma_new_client_wf(s: StealerView, client: ClientId, version: ProtocolVersionView)
    requires
        s.wf(),
    ensures
        s.new_client(client, version).state.wf(),
{
}

/// Noting a client's new protocol version keeps the invariant.
pub proof fn lemma_switch_protocol_version_wf(
    s: StealerView,
    client: ClientId,
    version: ProtocolVersionView,
)
    requires
        s.wf(),
    ensures
        s.switch_protocol_version(client, version).state.wf(),
{
}

/// Subscribing keeps the invariant.
pub proof fn lemma_subscribe_wf(
    s: StealerView,
    client: ClientId,
    port: Port,
    filter: Result<Option<HttpFilterView>, SubscribeErrorView>,
)
    requires
        s.wf(),
    ensures
        s.subscribe(client, port, filter).state.wf(),
{
    if let Ok(f) = filter {
        lemma_after_add_wf(s.port_subscriptions, client, port, f);
    }
}

/// Subscribing with a filter yet to be compiled keeps the invariant.
pub proof fn lemma_port_subscribe_wf(s: StealerView, client: ClientId, steal: StealTypeView)
    requires
        s.wf(),
    ensures
        s.port_subscribe(client, steal).state.wf(),
{
    lemma_subscribe_wf(s, client, compile_steal(steal).0, compile_steal(steal).1);
}

/// Hearing that a redirection is installed keeps the invariant.
pub proof fn lemma_redirection_added_wf(s: StealerView, client: ClientId, port: Port)
    requires
        s.wf(),
    ensures
        s.redirection_added(client, port).state.wf(),
{
}

/// Hearing that a redirection could not be installed keeps the invariant.
pub proof fn lemma_redirection_failed_wf(
    s: StealerView,
    client: ClientId,
    port: Port,
    message: Seq<char>,
)
    requires
        s.wf(),
    ensures
        s.redirection_failed(client, port, message).state.wf(),
{
    lemma_after_release_wf(s.port_subscriptions, client, Some(port));
}

/// Unsubscribing from a port keeps the invariant.
pub proof fn lemma_port_unsubscribe_wf(s: StealerView, client: ClientId, port: Port)
    requires
        s.wf(),
    ensures
        s.port_unsubscribe(client, port).state.wf(),
{
    lemma_after_release_wf(s.port_subscriptions, client, Some(port));
}

/// Taking a whole stolen connection out keeps the invariant and leaves no
/// trace of the connection.
pub proof fn lemma_without_connection_wf(s: StealerView, connection_id: ConnectionId)
    requires
        s.wf(),
        s.is_raw(connection_id),
    ensures
        s.without_connection(connection_id).wf(),
        !s.without_connection(connection_id).allocated.contains(connection_id),
        !s.without_connection(connection_id).mentions(connection_id),
{
    let t = s.without_connection(connection_id);
    let owner = s.connection_clients[connection_id];
    lemma_without_pair(s.client_connections, (owner, connection_id));
    assert forall|c: ConnectionId| #[trigger]
        t.connection_clients.contains_key(c) implies t.client_connections.contains(
        (t.connection_clients[c], c),
    ) by {
        assert(s.client_connections.contains((s.connection_clients[c], c)));
    }
    assert forall|p: (ConnectionId, ClientId)| #[trigger]
        t.http_connection_clients.contains(p) implies t.is_filtered(p.0) by {
        assert(s.is_filtered(p.0));
    }
    assert forall|p: (ConnectionId, RequestId)| #[trigger]
        t.http_response_senders.contains(p) implies t.is_filtered(p.0) by {
        assert(s.is_filtered(p.0));
    }
    lemma_no_filtered_trace(s, connection_id);
    assert(!t.mentions(connection_id)) by {
        if exists|client: ClientId| t.client_connections.contains((client, connection_id)) {
            let client = choose|client: ClientId|
                t.client_connections.contains((client, connection_id));
            assert(s.client_connections.contains((client, connection_id)));
        }
    }
}

/// Nothing is noted of a filtered connection under an id that is free or
/// names a whole stolen connection.
pub proof fn lemma_no_filtered_trace(s: StealerView, connection_id: ConnectionId)
    requires
        s.wf(),
        !s.is_filtered(connection_id),
    ensures
        seconds_of(s.http_connection_clients, connection_id).len() == 0,
        seconds_of(s.http_response_senders, connection_id).len() == 0,
{
    lemma_seconds_of(s.http_connection_clients, connection_id);
    lemma_seconds_of(s.http_response_senders, connection_id);
    let a = seconds_of(s.http_connection_clients, connection_id);
    if a.len() > 0 {
        assert(a.contains(a[0]));
        assert(s.http_connection_clients.contains((connection_id, a[0])));
    }
    let b = seconds_of(s.http_response_senders, connection_id);
    if b.len() > 0 {
        assert(b.contains(b[0]));
        assert(s.http_response_senders.contains((connection_id, b[0])));
    }
}

/// Closing a connection at a client's wish keeps the invariant.
pub proof fn lemma_connection_unsubscribe_wf(s: StealerView, connection_id: ConnectionId)
    requires
        s.wf(),
    ensures
        s.connection_unsubscribe(connection_id).state.wf(),
{
    if s.is_raw(connection_id) {
        lemma_without_connection_wf(s, connection_id);
    } else {
        lemma_http_connection_closed_wf(s, connection_id);
    }
}

/// The end of a whole stolen connection keeps the invariant.
pub proof fn lemma_connection_ended_wf(s: StealerView, connection_id: ConnectionId)
    requires
        s.wf(),
    ensures
        s.connection_ended(connection_id).state.wf(),
{
    if s.is_raw(connection_id) {
        lemma_without_connection_wf(s, connection_id);
    }
}

/// Closing a connection at a client's wish leaves no trace of it, whatever
/// kind of connection it is.
pub proof fn lemma_connection_unsubscribe_clears(s: StealerView, connection_id: ConnectionId)
    requires
        s.wf(),
    ensures
        !s.connection_unsubscribe(connection_id).state.allocated.contains(connection_id),
        !s.connection_unsubscribe(connection_id).state.mentions(connection_id),
{
    if s.is_raw(connection_id) {
        lemma_without_connection_wf(s, connection_id);
    } else if s.is_filtered(connection_id) {
        lemma_http_connection_closed_wf(s, connection_id);
    } else {
        lemma_no_filtered_trace(s, connection_id);
        if exists|client: ClientId| s.client_connections.contains((client, connection_id)) {
            let client = choose|client: ClientId|
                s.client_connections.contains((client, connection_id));
            assert(s.connection_clients.contains_key(connection_id));
        }
    }
}

/// Reading from a connection keeps the invariant.
pub proof fn lemma_forward_incoming_tcp_data_wf(
    s: StealerView,
    connection_id: ConnectionId,
    incoming: ReadView,
)
    requires
        s.wf(),
    ensures
        s.forward_incoming_tcp_data(connection_id, incoming).state.wf(),
{
    lemma_connection_ended_wf(s, connection_id);
}

/// Forgetting a client keeps the invariant, and leaves the client with no
/// connection and no registration.
pub proof fn lemma_close_client_wf(s: StealerView, client: ClientId)
    requires
        s.wf(),
    ensures
        s.close_client(client).state.wf(),
        !s.close_client(client).state.clients.contains_key(client),
        seconds_of(s.close_client(client).state.client_connections, client).len() == 0,
{
    let t = s.close_client(client).state;
    let connections = seconds_of(s.client_connections, client);
    lemma_after_release_wf(s.port_subscriptions, client, None);
    lemma_seconds_of(s.client_connections, client);
    lemma_without_first(s.client_connections, client);
    assert forall|c: ConnectionId| #[trigger] s.connection_clients.contains_key(c) implies (
    connections.to_set().contains(c) <==> s.connection_clients[c] == client) by {
        assert(s.client_connections.contains((s.connection_clients[c], c)));
        if connections.contains(c) {
            assert(s.client_connections.contains((client, c)));
        }
    }
    assert(t.write_streams =~= t.connection_clients.dom());
    assert(t.read_streams =~= t.connection_clients.dom());
    assert forall|p: (ClientId, ConnectionId)| #[trigger]
        t.client_connections.contains(p) implies t.connection_clients.contains_key(p.1)
        && t.connection_clients[p.1] == p.0 by {
        assert(s.client_connections.contains(p));
    }
    assert forall|c: ConnectionId| #[trigger]
        t.connection_clients.contains_key(c) implies t.client_connections.contains(
        (t.connection_clients[c], c),
    ) && t.allocated.contains(c) && t.clients.contains_key(t.connection_clients[c]) by {
        assert(s.connection_clients.contains_key(c));
        assert(s.client_connections.contains((s.connection_clients[c], c)));
    }
    assert forall|p: (ConnectionId, ClientId)| #[trigger]
        t.http_connection_clients.contains(p) implies t.is_filtered(p.0) by {
        assert(s.is_filtered(p.0));
        if connections.contains(p.0) {
            assert(s.client_connections.contains((client, p.0)));
        }
    }
    assert forall|p: (ConnectionId, RequestId)| #[trigger]
        t.http_response_senders.contains(p) implies t.is_filtered(p.0) by {
        assert(s.is_filtered(p.0));
        if connections.contains(p.0) {
            assert(s.client_connections.contains((client, p.0)));
        }
    }
}

/// Writing to a connection keeps the invariant.
pub proof fn lemma_forward_data_wf(s: StealerView, data: TcpDataView)
    requires
        s.wf(),
    ensures
        s.forward_data(data).state.wf(),
{
}

/// Answering a request keeps the invariant.
pub proof fn lemma_http_response_wf(s: StealerView, response: HttpResponseView)
    requires
        s.wf(),
    ensures
        s.http_response(response).state.wf(),
{
    lemma_without_pair(
        s.http_response_senders,
        (response.connection_id, response.request_id),
    );
}

/// Delivering a stolen request keeps the invariant.
pub proof fn lemma_deliver_http_request_wf(
    s: StealerView,
    client: ClientId,
    request: HttpRequestView,
    framed: bool,
)
    requires
        s.wf(),
    ensures
        s.deliver_http_request(client, request, framed).state.wf(),
{
    lemma_with_pair(s.http_connection_clients, (request.connection_id, client));
    lemma_with_pair(s.http_response_senders, (request.connection_id, request.request_id));
}

/// Forwarding a stolen request keeps the invariant.
pub proof fn lemma_forward_stolen_http_request_wf(
    s: StealerView,
    client: ClientId,
    request: HttpRequestView,
)
    requires
        s.wf(),
    ensures
        s.forward_stolen_http_request(client, request).state.wf(),
{
    lemma_deliver_http_request_wf(
        s,
        client,
        request,
        s.clients.contains_key(client) && crate::version::takes_framed(s.clients[client]),
    );
}

/// The end of a filtered connection keeps the invariant and leaves no trace
/// of the connection.
pub proof fn lemma_http_connection_closed_wf(s: StealerView, connection_id: ConnectionId)
    requires
        s.wf(),
    ensures
        s.http_connection_closed(connection_id).state.wf(),
        s.is_filtered(connection_id) ==> !s.http_connection_closed(
            connection_id,
        ).state.allocated.contains(connection_id) && !s.http_connection_closed(
            connection_id,
        ).state.mentions(connection_id),
{
    if s.is_filtered(connection_id) {
        let t = s.http_connection_closed(connection_id).state;
        lemma_without_first(s.http_connection_clients, connection_id);
        lemma_without_first(s.http_response_senders, connection_id);
        assert forall|p: (ClientId, ConnectionId)| #[trigger]
            t.client_connections.contains(p) implies t.connection_clients.contains_key(p.1)
            && t.connection_clients[p.1] == p.0 by {
            assert(s.client_connections.contains(p));
        }
        assert(!t.mentions(connection_id)) by {
            if exists|client: ClientId| t.client_connections.contains((client, connection_id)) {
                let client = choose|client: ClientId|
                    t.client_connections.contains((client, connection_id));
                assert(s.client_connections.contains((client, connection_id)));
            }
        }
    }
}

/// Stealing or filtering an accepted connection keeps the invariant, and the
/// id it is given was free before.
pub proof fn lemma_incoming_connection_wf(
    s: StealerView,
    peer: SocketAddress,
    original_destination: SocketAddress,
    local_address: IpAddress,
)
    requires
        s.wf(),
    ensures
        s.incoming_connection(peer, original_destination, local_address) matches Some(outcome)
            ==> outcome.state.wf(),
{
    let port = original_destination.port;
    match crate::subscriptions::subscription_at(s.port_subscriptions, port) {
        None => {},
        Some(crate::subscriptions::PortSubscriptionView::Unfiltered(client)) => {
            lemma_steal_connection_wf(s, client, peer, port, local_address);
        },
        Some(crate::subscriptions::PortSubscriptionView::Filtered(filters)) => {
            lemma_filter_connection_wf(s, port, filters);
        },
    }
}

/// Stealing a connection as a whole keeps the invariant.
pub proof fn lemma_steal_connection_wf(
    s: StealerView,
    client: ClientId,
    peer: SocketAddress,
    port: Port,
    local_address: IpAddress,
)
    requires
        s.wf(),
    ensures
        s.steal_connection(client, peer, port, local_address) matches Some(outcome)
            ==> outcome.state.wf(),
{
    lemma_lowest_vacant_from(s.allocated, 0, s.capacity);
    match lowest_vacant(s.allocated, s.capacity) {
        None => {},
        Some(connection_id) => {
            if s.clients.contains_key(client) {
                let t = s.steal_connection(client, peer, port, local_address).unwrap().state;
                lemma_with_pair(s.client_connections, (client, connection_id));
                assert(!s.connection_clients.contains_key(connection_id));
                assert forall|p: (ConnectionId, ClientId)| #[trigger]
                    t.http_connection_clients.contains(p) implies t.is_filtered(p.0) by {
                    assert(s.is_filtered(p.0));
                }
                assert forall|p: (ConnectionId, RequestId)| #[trigger]
                    t.http_response_senders.contains(p) implies t.is_filtered(p.0) by {
                    assert(s.is_filtered(p.0));
                }
                assert forall|c: ConnectionId| #[trigger]
                    t.connection_clients.contains_key(c) implies t.client_connections.contains(
                    (t.connection_clients[c], c),
                ) by {
                    if c != connection_id {
                        assert(s.client_connections.contains((s.connection_clients[c], c)));
                    }
                }
            } else {
                lemma_close_client_wf(s, client);
            }
        },
    }
}

/// Handing a connection to a filter task keeps the invariant.
pub proof fn lemma_filter_connection_wf(s: StealerView, port: Port, filters: Seq<FilterEntryView>)
    requires
        s.wf(),
    ensures
        s.filter_connection(port, filters) matches Some(outcome) ==> outcome.state.wf(),
{
    lemma_lowest_vacant_from(s.allocated, 0, s.capacity);
    match lowest_vacant(s.allocated, s.capacity) {
        None => {},
        Some(connection_id) => {
            let t = s.filter_connection(port, filters).unwrap().state;
            assert forall|p: (ConnectionId, ClientId)| #[trigger]
                t.http_connection_clients.contains(p) implies t.is_filtered(p.0) by {
                assert(s.is_filtered(p.0));
            }
            assert forall|p: (ConnectionId, RequestId)| #[trigger]
                t.http_response_senders.contains(p) implies t.is_filtered(p.0) by {
                assert(s.is_filtered(p.0));
            }
        },
    }
}

/// Handling a command keeps the invariant.
pub proof fn lemma_handle_command_wf(s: StealerView, client: ClientId, command: CommandView)
    requires
        s.wf(),
    ensures
        s.handle_command(client, command).state.wf(),
{
    match command {
        CommandView::NewClient(version) => lemma_new_client_wf(s, client, version),
        CommandView::PortSubscribe(steal) => lemma_port_subscribe_wf(s, client, steal),
        CommandView::PortUnsubscribe(port) => lemma_port_unsubscribe_wf(s, client, port),
        CommandView::ConnectionUnsubscribe(connection_id) => lemma_connection_unsubscribe_wf(
            s,
            connection_id,
        ),
        CommandView::ClientClose => lemma_close_client_wf(s, client),
        CommandView::ResponseData(data) => lemma_forward_data_wf(s, data),
        CommandView::HttpResponse(response) => lemma_http_response_wf(s, response),
        CommandView::SwitchProtocolVersion(version) => lemma_switch_protocol_version_wf(
            s,
            client,
            version,
        ),
    }
}

/// Whatever the events are and in whatever order they come, the invariant
/// holds after each of them.
pub proof fn lemma_step_wf(s: StealerView, event: EventView)
    requires
        s.wf(),
    ensures
        s.step(event).state.wf(),
{
    match event {
        EventView::Command(Some(command)) => lemma_handle_command_wf(
            s,
            command.client_id,
            command.command,
        ),
        EventView::Accept(Some(accepted)) => lemma_incoming_connection_wf(
            s,
            accepted.peer,
            accepted.original_destination,
            accepted.local_address,
        ),
        EventView::Read { connection_id, incoming } => lemma_forward_incoming_tcp_data_wf(
            s,
            connection_id,
            incoming,
        ),
        EventView::HttpRequest(Some(request)) => lemma_forward_stolen_http_request_wf(
            s,
            request.client_id,
            request.request,
        ),
        EventView::HttpClose(connection_id) => lemma_http_connection_closed_wf(s, connection_id),
        EventView::RedirectionAdded { client_id, port } => lemma_redirection_added_wf(
            s,
            client_id,
            port,
        ),
        EventView::RedirectionFailed { client_id, port, message } => lemma_redirection_failed_wf(
            s,
            client_id,
            port,
            message,
        ),
        EventView::SendFailed { client_id } => lemma_close_client_wf(s, client_id),
        _ => {},
    }
}

} // verus!
