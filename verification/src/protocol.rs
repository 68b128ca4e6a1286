//! Identifiers, addresses and the messages exchanged with clients.

use vstd::prelude::*;

verus! {

/// Names a client; chosen by whoever registers clients.
pub type ClientId = u64;

/// Names a live stolen connection; issued by the index allocator.
pub type ConnectionId = u64;

/// Names a request within one connection.
pub type RequestId = u64;

/// A TCP port of the workload.
pub type Port = u16;

/// An IP address, by its octets or as the 128 bits of a version 6 address.
#[derive(Clone, Copy, Debug, PartialEq, Eq, Structural)]
pub enum IpAddress {
    V4(u8, u8, u8, u8),
    V6(u128),
}

/// The version 4 loopback address.
pub open spec fn spec_localhost() -> IpAddress {
    IpAddress::V4(127, 0, 0, 1)
}

/// The version 4 loopback address.
#[verifier::when_used_as_spec(spec_localhost)]
pub fn localhost() -> (r: IpAddress)
    ensures
        r == spec_localhost(),
{
    IpAddress::V4(127, 0, 0, 1)
}

/// An address and a port.
#[derive(Clone, Copy, Debug, PartialEq, Eq, Structural)]
pub struct SocketAddress {
    pub ip: IpAddress,
    pub port: Port,
}

/// One header line of an HTTP message.
#[derive(Clone, Debug, PartialEq, Eq)]
pub struct HttpHeader {
    pub name: String,
    pub value: String,
}

pub struct HttpHeaderView {
    pub name: Seq<char>,
    pub value: Seq<char>,
}

impl View for HttpHeader {
    type V = HttpHeaderView;

    open spec fn view(&self) -> HttpHeaderView {
        HttpHeaderView { name: self.name@, value: self.value@ }
    }
}

/// The headers of a message, each by its view.
pub open spec fn headers_view(headers: Seq<HttpHeader>) -> Seq<HttpHeaderView> {
    headers.map_values(|h: HttpHeader| h@)
}

/// An HTTP request as it was read from a socket.
#[derive(Clone, Debug, PartialEq, Eq)]
pub struct ParsedRequest {
    pub method: String,
    pub path: String,
    pub headers: Vec<HttpHeader>,
    pub body: Vec<u8>,
}

pub struct ParsedRequestView {
    pub method: Seq<char>,
    pub path: Seq<char>,
    pub headers: Seq<HttpHeaderView>,
    pub body: Seq<u8>,
}

impl View for ParsedRequest {
    type V = ParsedRequestView;

    open spec fn view(&self) -> ParsedRequestView {
        ParsedRequestView {
            method: self.method@,
            path: self.path@,
            headers: headers_view(self.headers@),
            body: self.body@,
        }
    }
}

/// An HTTP request of a stolen connection, with the connection it came on,
/// its number on that connection, and the port it was sent to.
#[derive(Clone, Debug, PartialEq, Eq)]
pub struct HttpRequest {
    pub connection_id: ConnectionId,
    pub request_id: RequestId,
    pub port: Port,
    pub internal_request: ParsedRequest,
}

pub struct HttpRequestView {
    pub connection_id: ConnectionId,
    pub request_id: RequestId,
    pub port: Port,
    pub internal_request: ParsedRequestView,
}

impl View for HttpRequest {
    type V = HttpRequestView;

    open spec fn view(&self) -> HttpRequestView {
        HttpRequestView {
            connection_id: self.connection_id,
            request_id: self.request_id,
            port: self.port,
            internal_request: self.internal_request@,
        }
    }
}

/// A client's answer to a stolen HTTP request.
#[derive(Clone, Debug, PartialEq, Eq)]
pub struct HttpResponse {
    pub connection_id: ConnectionId,
    pub request_id: RequestId,
    pub port: Port,
    pub status: u16,
    pub headers: Vec<HttpHeader>,
    pub body: Vec<u8>,
}

pub struct HttpResponseView {
    pub connection_id: ConnectionId,
    pub request_id: RequestId,
    pub port: Port,
    pub status: u16,
    pub headers: Seq<HttpHeaderView>,
    pub body: Seq<u8>,
}

impl View for HttpResponse {
    type V = HttpResponseView;

    open spec fn view(&self) -> HttpResponseView {
        HttpResponseView {
            connection_id: self.connection_id,
            request_id: self.request_id,
            port: self.port,
            status: self.status,
            headers: headers_view(self.headers@),
            body: self.body@,
        }
    }
}

/// Tells a client that a connection to a port it holds was stolen.
#[derive(Clone, Copy, Debug, PartialEq, Eq, Structural)]
pub struct NewTcpConnection {
    pub connection_id: ConnectionId,
    pub remote_address: IpAddress,
    pub destination_port: Port,
    pub source_port: Port,
    pub local_address: IpAddress,
}

/// Bytes of one connection, in either direction.
#[derive(Clone, Debug, PartialEq, Eq)]
pub struct TcpData {
    pub connection_id: ConnectionId,
    pub bytes: Vec<u8>,
}

pub struct TcpDataView {
    pub connection_id: ConnectionId,
    pub bytes: Seq<u8>,
}

impl View for TcpData {
    type V = TcpDataView;

    open spec fn view(&self) -> TcpDataView {
        TcpDataView { connection_id: self.connection_id, bytes: self.bytes@ }
    }
}

/// Tells a client that a connection is over.
#[derive(Clone, Copy, Debug, PartialEq, Eq, Structural)]
pub struct TcpClose {
    pub connection_id: ConnectionId,
}

/// What part of a request a filter pattern is held against.
#[derive(Clone, Copy, Debug, PartialEq, Eq, Structural)]
pub enum FilterSubject {
    /// The name of some header.
    Header,
    /// The request path.
    Path,
    /// The request method.
    Method,
}

/// Whether a filter asks for all of its parts to match or for any one.
#[derive(Clone, Copy, Debug, PartialEq, Eq, Structural)]
pub enum MatchMode {
    All,
    Any,
}

/// One pattern of a filter as a client writes it.
#[derive(Clone, Debug, PartialEq, Eq)]
pub struct FilterPartSpec {
    pub subject: FilterSubject,
    pub pattern: String,
}

pub struct FilterPartView {
    pub subject: FilterSubject,
    pub pattern: Seq<char>,
}

impl View for FilterPartSpec {
    type V = FilterPartView;

    open spec fn view(&self) -> FilterPartView {
        FilterPartView { subject: self.subject, pattern: self.pattern@ }
    }
}

/// The extended filter form: a set of patterns over path, method and headers.
#[derive(Clone, Debug, PartialEq, Eq)]
pub struct HttpFilterSpec {
    pub mode: MatchMode,
    pub parts: Vec<FilterPartSpec>,
}

pub struct HttpFilterView {
    pub mode: MatchMode,
    pub parts: Seq<FilterPartView>,
}

impl View for HttpFilterSpec {
    type V = HttpFilterView;

    open spec fn view(&self) -> HttpFilterView {
        HttpFilterView {
            mode: self.mode,
            parts: self.parts@.map_values(|p: FilterPartSpec| p@),
        }
    }
}

/// What a client asks to steal.
#[derive(Clone, Debug, PartialEq, Eq)]
pub enum StealType {
    /// Every connection to the port.
    All(Port),
    /// The requests on the port with a header that matches the pattern.
    FilteredHttp(Port, String),
    /// The requests on the port that match the extended filter.
    FilteredHttpEx(Port, HttpFilterSpec),
}

pub enum StealTypeView {
    All(Port),
    FilteredHttp(Port, Seq<char>),
    FilteredHttpEx(Port, HttpFilterView),
}

impl View for StealType {
    type V = StealTypeView;

    open spec fn view(&self) -> StealTypeView {
        match self {
            StealType::All(port) => StealTypeView::All(*port),
            StealType::FilteredHttp(port, pattern) => StealTypeView::FilteredHttp(*port, pattern@),
            StealType::FilteredHttpEx(port, filter) => StealTypeView::FilteredHttpEx(
                *port,
                filter@,
            ),
        }
    }
}

/// Why a subscription was turned down.
#[derive(Clone, Debug, PartialEq, Eq)]
pub enum SubscribeError {
    /// The port is held in a way that leaves no room for this subscription.
    PortAlreadyStolen(Port),
    /// The client already holds a filter on the port.
    AlreadySubscribed(Port),
    /// The header pattern is no regular expression; with the pattern and the
    /// compiler's message.
    BadHttpFilterRegex(String, String),
    /// A pattern of the extended filter is no regular expression; with the
    /// filter and the compiler's message.
    BadHttpFilterExRegex(HttpFilterSpec, String),
    /// The redirection for the port could not be installed; with the
    /// redirector's message.
    RedirectionFailed(Port, String),
}

pub enum SubscribeErrorView {
    PortAlreadyStolen(Port),
    AlreadySubscribed(Port),
    BadHttpFilterRegex(Seq<char>, Seq<char>),
    BadHttpFilterExRegex(HttpFilterView, Seq<char>),
    RedirectionFailed(Port, Seq<char>),
}

impl View for SubscribeError {
    type V = SubscribeErrorView;

    open spec fn view(&self) -> SubscribeErrorView {
        match self {
            SubscribeError::PortAlreadyStolen(port) => SubscribeErrorView::PortAlreadyStolen(*port),
            SubscribeError::AlreadySubscribed(port) => SubscribeErrorView::AlreadySubscribed(*port),
            SubscribeError::BadHttpFilterRegex(pattern, message) =>
                SubscribeErrorView::BadHttpFilterRegex(pattern@, message@),
            SubscribeError::BadHttpFilterExRegex(filter, message) =>
                SubscribeErrorView::BadHttpFilterExRegex(filter@, message@),
            SubscribeError::RedirectionFailed(port, message) =>
                SubscribeErrorView::RedirectionFailed(*port, message@),
        }
    }
}

/// The outcome of a subscription, by its view.
pub open spec fn subscribe_result_view(result: Result<(), SubscribeError>) -> Result<
    (),
    SubscribeErrorView,
> {
    match result {
        Ok(()) => Ok(()),
        Err(e) => Err(e@),
    }
}

/// A message to a client.
#[derive(Debug, PartialEq, Eq)]
pub enum DaemonTcp {
    NewConnection(NewTcpConnection),
    Data(TcpData),
    Close(TcpClose),
    /// A stolen request, for clients that do not take the framed form.
    HttpRequest(HttpRequest),
    /// A stolen request in the framed form.
    HttpRequestFramed(HttpRequest),
    SubscribeResult(Result<(), SubscribeError>),
}

pub enum DaemonTcpView {
    NewConnection(NewTcpConnection),
    Data(TcpDataView),
    Close(TcpClose),
    HttpRequest(HttpRequestView),
    HttpRequestFramed(HttpRequestView),
    SubscribeResult(Result<(), SubscribeErrorView>),
}

impl View for DaemonTcp {
    type V = DaemonTcpView;

    open spec fn view(&self) -> DaemonTcpView {
        match self {
            DaemonTcp::NewConnection(c) => DaemonTcpView::NewConnection(*c),
            DaemonTcp::Data(d) => DaemonTcpView::Data(d@),
            DaemonTcp::Close(c) => DaemonTcpView::Close(*c),
            DaemonTcp::HttpRequest(r) => DaemonTcpView::HttpRequest(r@),
            DaemonTcp::HttpRequestFramed(r) => DaemonTcpView::HttpRequestFramed(r@),
            DaemonTcp::SubscribeResult(r) => DaemonTcpView::SubscribeResult(
                subscribe_result_view(*r),
            ),
        }
    }
}

} // verus!
