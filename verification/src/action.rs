//! What comes into the stealer (commands and events) and what it asks its
//! caller to do in answer (actions).

use crate::filter::{filters_view, FilterEntry, FilterEntryView};
use crate::protocol::{
    ClientId, ConnectionId, DaemonTcp, DaemonTcpView, HttpRequest, HttpRequestView, HttpResponse,
    HttpResponseView, IpAddress, Port, RequestId, SocketAddress, StealType, StealTypeView,
    TcpData, TcpDataView,
};
use crate::version::{ProtocolVersion, ProtocolVersionView};
use vstd::prelude::*;

verus! {

#[verifier::external_type_specification]
#[verifier::external_body]
pub struct ExBytes(bytes::Bytes);

/// The bytes that a chunk read from a socket holds, in order.
pub uninterp spec fn bytes_contents(chunk: bytes::Bytes) -> Seq<u8>;

/// Copies a chunk into a vector, by the `to_vec` that `bytes::Bytes` has from
/// the byte slice it stands for: the vector holds the chunk's bytes in order.
#[verifier::external_body]
pub(crate) fn chunk_to_vec(chunk: &bytes::Bytes) -> (r: Vec<u8>)
    ensures
        r@ == bytes_contents(*chunk),
{
    chunk.to_vec()
}

/// Something for the caller to do. The stealer holds no socket and no
/// channel: it returns actions, and the caller carries them out in order.
#[derive(Debug, PartialEq, Eq)]
pub enum Action {
    /// Send `message` to the client.
    Send { client_id: ClientId, message: DaemonTcp },
    /// Install the redirection of `port`, then report to the stealer whether
    /// that worked, naming the client that waits for the answer.
    AddRedirection { port: Port, client_id: ClientId },
    /// Remove the redirection of `port`.
    RemoveRedirection { port: Port },
    /// Keep the accepted socket under `connection_id`: its readable side to
    /// read from, its writable side to write responses to.
    OpenConnection { connection_id: ConnectionId },
    /// Hand the accepted socket to a new filter task, with the address the
    /// connection was meant for and the filters of its port.
    SpawnFilter {
        connection_id: ConnectionId,
        destination: SocketAddress,
        filters: Vec<FilterEntry>,
    },
    /// Drop both sides of the socket kept under `connection_id`.
    CloseConnection { connection_id: ConnectionId },
    /// Write the bytes to the socket kept under their connection id.
    Write(TcpData),
    /// Keep the response sink of the request that is about to be sent.
    AwaitResponse { connection_id: ConnectionId, request_id: RequestId },
    /// Hand the response to the sink kept for its request, and forget the sink.
    Respond(HttpResponse),
    /// Drop the response sink kept for the request.
    DropResponse { connection_id: ConnectionId, request_id: RequestId },
    /// Drop the channel to the client.
    DropClient { client_id: ClientId },
}

pub enum ActionView {
    Send { client_id: ClientId, message: DaemonTcpView },
    AddRedirection { port: Port, client_id: ClientId },
    RemoveRedirection { port: Port },
    OpenConnection { connection_id: ConnectionId },
    SpawnFilter {
        connection_id: ConnectionId,
        destination: SocketAddress,
        filters: Seq<FilterEntryView>,
    },
    CloseConnection { connection_id: ConnectionId },
    Write(TcpDataView),
    AwaitResponse { connection_id: ConnectionId, request_id: RequestId },
    Respond(HttpResponseView),
    DropResponse { connection_id: ConnectionId, request_id: RequestId },
    DropClient { client_id: ClientId },
}

impl View for Action {
    type V = ActionView;

    open spec fn view(&self) -> ActionView {
        match self {
            Action::Send { client_id, message } => ActionView::Send {
                client_id: *client_id,
                message: message@,
            },
            Action::AddRedirection { port, client_id } => ActionView::AddRedirection {
                port: *port,
                client_id: *client_id,
            },
            Action::RemoveRedirection { port } => ActionView::RemoveRedirection { port: *port },
            Action::OpenConnection { connection_id } => ActionView::OpenConnection {
                connection_id: *connection_id,
            },
            Action::SpawnFilter { connection_id, destination, filters } => ActionView::SpawnFilter {
                connection_id: *connection_id,
                destination: *destination,
                filters: filters_view(filters@),
            },
            Action::CloseConnection { connection_id } => ActionView::CloseConnection {
                connection_id: *connection_id,
            },
            Action::Write(data) => ActionView::Write(data@),
            Action::AwaitResponse { connection_id, request_id } => ActionView::AwaitResponse {
                connection_id: *connection_id,
                request_id: *request_id,
            },
            Action::Respond(response) => ActionView::Respond(response@),
            Action::DropResponse { connection_id, request_id } => ActionView::DropResponse {
                connection_id: *connection_id,
                request_id: *request_id,
            },
            Action::DropClient { client_id } => ActionView::DropClient { client_id: *client_id },
        }
    }
}

/// A list of actions, each by its view.
pub open spec fn actions_view(actions: Seq<Action>) -> Seq<ActionView> {
    actions.map_values(|a: Action| a@)
}

/// Adds `action` at the end of `actions`.
pub(crate) fn push_action(actions: &mut Vec<Action>, action: Action)
    ensures
        actions_view(final(actions)@) == actions_view(old(actions)@).push(action@),
{
    actions.push(action);
    assert(actions_view(actions@) =~= actions_view(old(actions)@).push(action@));
}

/// Adds `more` at the end of `actions`.
pub(crate) fn append_actions(actions: &mut Vec<Action>, more: Vec<Action>)
    ensures
        actions_view(final(actions)@) == actions_view(old(actions)@) + actions_view(more@),
{
    let ghost added = more@;
    let mut more = more;
    actions.append(&mut more);
    assert(actions_view(actions@) =~= actions_view(old(actions)@) + actions_view(added));
}

/// What a client, or the agent on its behalf, asks of the stealer.
#[derive(Debug, PartialEq, Eq)]
pub enum Command {
    /// Register the client, which speaks the given protocol version.
    NewClient(ProtocolVersion),
    /// Subscribe the client to a port.
    PortSubscribe(StealType),
    /// Give up the client's subscription to a port.
    PortUnsubscribe(Port),
    /// Close a stolen connection.
    ConnectionUnsubscribe(ConnectionId),
    /// The client is gone.
    ClientClose,
    /// Bytes for the remote end of a stolen connection.
    ResponseData(TcpData),
    /// The answer to a stolen request.
    HttpResponse(HttpResponse),
    /// The client speaks another protocol version from now on.
    SwitchProtocolVersion(ProtocolVersion),
}

pub enum CommandView {
    NewClient(ProtocolVersionView),
    PortSubscribe(StealTypeView),
    PortUnsubscribe(Port),
    ConnectionUnsubscribe(ConnectionId),
    ClientClose,
    ResponseData(TcpDataView),
    HttpResponse(HttpResponseView),
    SwitchProtocolVersion(ProtocolVersionView),
}

impl View for Command {
    type V = CommandView;

    open spec fn view(&self) -> CommandView {
        match self {
            Command::NewClient(version) => CommandView::NewClient(version@),
            Command::PortSubscribe(steal) => CommandView::PortSubscribe(steal@),
            Command::PortUnsubscribe(port) => CommandView::PortUnsubscribe(*port),
            Command::ConnectionUnsubscribe(connection_id) => CommandView::ConnectionUnsubscribe(
                *connection_id,
            ),
            Command::ClientClose => CommandView::ClientClose,
            Command::ResponseData(data) => CommandView::ResponseData(data@),
            Command::HttpResponse(response) => CommandView::HttpResponse(response@),
            Command::SwitchProtocolVersion(version) => CommandView::SwitchProtocolVersion(
                version@,
            ),
        }
    }
}

/// A command with the client it concerns.
#[derive(Debug, PartialEq, Eq)]
pub struct StealerCommand {
    pub client_id: ClientId,
    pub command: Command,
}

pub struct StealerCommandView {
    pub client_id: ClientId,
    pub command: CommandView,
}

impl View for StealerCommand {
    type V = StealerCommandView;

    open spec fn view(&self) -> StealerCommandView {
        StealerCommandView { client_id: self.client_id, command: self.command@ }
    }
}

/// A request that a filter task matched, with the client it is for.
#[derive(Debug, PartialEq, Eq)]
pub struct HandlerHttpRequest {
    pub client_id: ClientId,
    pub request: HttpRequest,
}

pub struct HandlerHttpRequestView {
    pub client_id: ClientId,
    pub request: HttpRequestView,
}

impl View for HandlerHttpRequest {
    type V = HandlerHttpRequestView;

    open spec fn view(&self) -> HandlerHttpRequestView {
        HandlerHttpRequestView { client_id: self.client_id, request: self.request@ }
    }
}

/// An accepted connection: where it comes from, where it was going before
/// it was redirected, and the local address of the accepted socket.
#[derive(Clone, Copy, Debug, PartialEq, Eq, Structural)]
pub struct Accepted {
    pub peer: SocketAddress,
    pub original_destination: SocketAddress,
    pub local_address: IpAddress,
}

/// Why the stealer refused an event or gave up.
#[derive(Clone, Copy, Debug, PartialEq, Eq, Structural)]
pub enum AgentError {
    /// Every connection id is in use.
    ConnectionLimitReached,
    /// The channel on which filter tasks send their requests is closed.
    HttpRequestReceiverClosed,
}

/// What one turn of the stealer's loop brings.
#[derive(Debug)]
pub enum Event {
    /// A command, or `None` when the command channel is closed.
    Command(Option<StealerCommand>),
    /// A connection was accepted, or `None` when accepting failed.
    Accept(Option<Accepted>),
    /// A stolen connection was read: a chunk, a read error with its message,
    /// or `None` at the end of the stream.
    Read { connection_id: ConnectionId, incoming: Option<Result<bytes::Bytes, String>> },
    /// A filter task matched a request; `None` when the request channel is
    /// closed.
    HttpRequest(Option<HandlerHttpRequest>),
    /// A filter task ended.
    HttpClose(ConnectionId),
    /// The redirection that the client's subscription waits for is installed.
    RedirectionAdded { client_id: ClientId, port: Port },
    /// The redirection that the client's subscription waits for could not be
    /// installed; with the redirector's message.
    RedirectionFailed { client_id: ClientId, port: Port, message: String },
    /// A message to the client could not be sent.
    SendFailed { client_id: ClientId },
    /// The stealer was told to stop.
    Cancelled,
}

pub enum EventView {
    Command(Option<StealerCommandView>),
    Accept(Option<Accepted>),
    Read { connection_id: ConnectionId, incoming: Option<Result<Seq<u8>, Seq<char>>> },
    HttpRequest(Option<HandlerHttpRequestView>),
    HttpClose(ConnectionId),
    RedirectionAdded { client_id: ClientId, port: Port },
    RedirectionFailed { client_id: ClientId, port: Port, message: Seq<char> },
    SendFailed { client_id: ClientId },
    Cancelled,
}

impl View for Event {
    type V = EventView;

    open spec fn view(&self) -> EventView {
        match self {
            Event::Command(command) => EventView::Command(
                match command {
                    Some(c) => Some(c@),
                    None => None,
                },
            ),
            Event::Accept(accepted) => EventView::Accept(*accepted),
            Event::Read { connection_id, incoming } => EventView::Read {
                connection_id: *connection_id,
                incoming: match incoming {
                    Some(Ok(chunk)) => Some(Ok(bytes_contents(*chunk))),
                    Some(Err(message)) => Some(Err(message@)),
                    None => None,
                },
            },
            Event::HttpRequest(request) => EventView::HttpRequest(
                match request {
                    Some(r) => Some(r@),
                    None => None,
                },
            ),
            Event::HttpClose(connection_id) => EventView::HttpClose(*connection_id),
            Event::RedirectionAdded { client_id, port } => EventView::RedirectionAdded {
                client_id: *client_id,
                port: *port,
            },
            Event::RedirectionFailed { client_id, port, message } => EventView::RedirectionFailed {
                client_id: *client_id,
                port: *port,
                message: message@,
            },
            Event::SendFailed { client_id } => EventView::SendFailed { client_id: *client_id },
            Event::Cancelled => EventView::Cancelled,
        }
    }
}

/// How the loop goes on after an event.
#[derive(Debug, PartialEq, Eq)]
pub enum Step {
    /// Carry the actions out and wait for the next event.
    Continue(Vec<Action>),
    /// The event was refused and changed nothing; what it brought is dropped,
    /// and the loop goes on.
    Refused(AgentError),
    /// Leave the loop.
    Stop,
    /// Leave the loop with an error.
    Failed(AgentError),
}

pub enum StepView {
    Continue(Seq<ActionView>),
    Refused(AgentError),
    Stop,
    Failed(AgentError),
}

impl View for Step {
    type V = StepView;

    open spec fn view(&self) -> StepView {
        match self {
            Step::Continue(actions) => StepView::Continue(actions_view(actions@)),
            Step::Refused(error) => StepView::Refused(*error),
            Step::Stop => StepView::Stop,
            Step::Failed(error) => StepView::Failed(*error),
        }
    }
}

} // verus!
