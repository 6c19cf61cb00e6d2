//! The lifecycle of the service and the decisions of its control loop.
//!
//! The service is stopped or running. While it runs, one loop waits on the
//! loopback listener, on a second listener that is there only while network
//! access is enabled, on control messages and on signals. What the loop does
//! about each of these is decided here; the waiting, the sockets and the tasks
//! are the caller's. Addresses, channels and connections pass through as the
//! caller made them.

use crate::bytes::same_bytes;
use crate::error::Error;
use vstd::array::array_as_slice;
use vstd::prelude::*;
use vstd::slice::slice_subrange;

verus! {

/// The service is not running, or what was asked for was never set up.
#[derive(Debug, Clone, Copy, PartialEq, Eq, Structural)]
pub struct Unavailable;

impl Unavailable {
    /// The condition in words.
    pub fn message(&self) -> (text: &'static str)
        ensures
            text@ == "Unavailable"@,
    {
        "Unavailable"
    }
}

/// What can be asked of the control loop.
#[derive(Debug, Clone, Copy, PartialEq, Eq, Structural)]
pub enum Message {
    /// Listen on every address; the answer is the port.
    ListenAnyAddr,
    /// Stop listening on every address.
    CloseAnyAddr,
    /// Ask for the port of the listener on every address.
    QueryAnyAddrPort,
    /// Leave the loop.
    Shutdown,
}

/// The state of the service: the address of its loopback listener, the sender
/// of its control channel and its database, all three or none.
#[derive(Debug)]
pub enum Server<A, C, D> {
    /// Not started, or stopped again.
    Stopped,
    /// Started and not yet stopped.
    Running {
        /// Where the loopback listener is bound.
        addr: A,
        /// The sending end of the control channel.
        channel: C,
        /// The open database.
        db: D,
    },
}

/// What a request to start comes to.
#[derive(Debug, PartialEq, Eq)]
pub enum Startup<A> {
    /// The service is stopped: open the database, bind the listener, publish.
    Initialize,
    /// The service runs already, bound to this address: report it and return.
    AlreadyRunning(A),
}

impl<A, C, D> Server<A, C, D> {
    /// A service that was not started.
    pub fn new() -> (server: Self)
        ensures
            server is Stopped,
    {
        Server::Stopped
    }

    /// The address that the service is bound to, while it runs.
    pub open spec fn spec_addr(&self) -> Option<A> {
        match *self {
            Server::Stopped => None,
            Server::Running { addr, .. } => Some(addr),
        }
    }

    /// The sender of the control channel, while the service runs.
    pub open spec fn spec_channel(&self) -> Option<C> {
        match *self {
            Server::Stopped => None,
            Server::Running { channel, .. } => Some(channel),
        }
    }

    /// The database, while the service runs.
    pub open spec fn spec_db(&self) -> Option<D> {
        match *self {
            Server::Stopped => None,
            Server::Running { db, .. } => Some(db),
        }
    }

    /// Whether the service runs.
    pub fn is_running(&self) -> (running: bool)
        ensures
            running == (*self is Running),
    {
        match self {
            Server::Stopped => false,
            Server::Running { .. } => true,
        }
    }

    /// Publishes a service that has just been set up. A service that runs
    /// already stays as it is, and what was brought comes back.
    pub fn publish(&mut self, addr: A, channel: C, db: D) -> (refused: Option<(A, C, D)>)
        ensures
            *old(self) is Stopped ==> refused is None && *final(self) == (Server::Running {
                addr,
                channel,
                db,
            }),
            *old(self) is Running ==> refused == Some((addr, channel, db)) && *final(self) == *old(
                self,
            ),
    {
        if self.is_running() {
            Some((addr, channel, db))
        } else {
            *self = Server::Running { addr, channel, db };
            None
        }
    }
}

/// What a request to start comes to in the given state.
pub open spec fn startup<A, C, D>(server: Server<A, C, D>) -> Startup<A> {
    match server {
        Server::Stopped => Startup::Initialize,
        Server::Running { addr, .. } => Startup::AlreadyRunning(addr),
    }
}

/// Decides what a request to start comes to: a full start-up of a stopped
/// service; of a running one no more than its address, which it is bound to
/// since it was published.
pub fn start<'a, A, C, D>(server: &'a Server<A, C, D>) -> (r: Startup<&'a A>)
    ensures
        match r {
            Startup::Initialize => startup(*server) == Startup::<A>::Initialize,
            Startup::AlreadyRunning(addr) => startup(*server) == Startup::AlreadyRunning(*addr),
        },
{
    match server {
        Server::Stopped => Startup::Initialize,
        Server::Running { addr, .. } => Startup::AlreadyRunning(addr),
    }
}

/// Brings the service back to where it was before it was started, so that it
/// can be started again.
pub fn reset_server<A, C, D>(server: &mut Server<A, C, D>)
    ensures
        *final(server) is Stopped,
{
    *server = Server::new();
}

/// The request that a client puts to the control loop: the message, and the
/// channel to send it on. `Unavailable` where the service does not run.
pub open spec fn request<A, C, D>(server: Server<A, C, D>, message: Message) -> Result<
    (C, Message),
    Unavailable,
> {
    match server {
        Server::Stopped => Err(Unavailable),
        Server::Running { channel, .. } => Ok((channel, message)),
    }
}

/// What was handed out is the request `wanted`.
pub open spec fn is_request<C>(
    given: Result<(&C, Message), Unavailable>,
    wanted: Result<(C, Message), Unavailable>,
) -> bool {
    match given {
        Ok((channel, message)) => wanted == Ok::<_, Unavailable>((*channel, message)),
        Err(e) => wanted == Err::<(C, Message), _>(e),
    }
}

fn post<'a, A, C, D>(server: &'a Server<A, C, D>, message: Message) -> (r: Result<
    (&'a C, Message),
    Unavailable,
>)
    ensures
        is_request(r, request(*server, message)),
{
    match server {
        Server::Stopped => Err(Unavailable),
        Server::Running { channel, .. } => Ok((channel, message)),
    }
}

/// Asks the control loop for the port of the listener on every address: what
/// is to be sent, and on which channel. `Unavailable` where the service does
/// not run.
pub fn query_network_port<'a, A, C, D>(server: &'a Server<A, C, D>) -> (r: Result<
    (&'a C, Message),
    Unavailable,
>)
    ensures
        is_request(r, request(*server, Message::QueryAnyAddrPort)),
{
    post(server, Message::QueryAnyAddrPort)
}

/// Asks the control loop to listen on every address: what is to be sent, and
/// on which channel. `Unavailable` where the service does not run.
pub fn listen_any_addr<'a, A, C, D>(server: &'a Server<A, C, D>) -> (r: Result<
    (&'a C, Message),
    Unavailable,
>)
    ensures
        is_request(r, request(*server, Message::ListenAnyAddr)),
{
    post(server, Message::ListenAnyAddr)
}

/// Asks the control loop to stop listening on every address: what is to be
/// sent, and on which channel. `Unavailable` where the service does not run.
pub fn close_any_addr<'a, A, C, D>(server: &'a Server<A, C, D>) -> (r: Result<
    (&'a C, Message),
    Unavailable,
>)
    ensures
        is_request(r, request(*server, Message::CloseAnyAddr)),
{
    post(server, Message::CloseAnyAddr)
}

/// Asks the control loop to leave, if there is one: nothing is to be sent
/// where the service does not run.
pub fn stop<'a, A, C, D>(server: &'a Server<A, C, D>) -> (r: Option<(&'a C, Message)>)
    ensures
        match r {
            Some(sent) => is_request(Ok(sent), request(*server, Message::Shutdown)),
            None => *server is Stopped,
        },
{
    match post(server, Message::Shutdown) {
        Ok(request) => Some(request),
        Err(_) => None,
    }
}

/// Reads the answer to a request. The control loop answers each request once;
/// where it has left, the answer's channel is closed and nothing was received.
pub fn reply<T>(received: Option<T>) -> (r: Result<T, Unavailable>)
    ensures
        r == match received {
            Some(answer) => Ok::<T, Unavailable>(answer),
            None => Err(Unavailable),
        },
{
    match received {
        Some(answer) => Ok(answer),
        None => Err(Unavailable),
    }
}

/// Access to the database of a service.
pub struct DB<'a, A, C, D>(&'a Server<A, C, D>);

/// The database accessor of a service.
pub fn db<'a, A, C, D>(server: &'a Server<A, C, D>) -> (r: DB<'a, A, C, D>)
    ensures
        r.server() == *server,
{
    DB(server)
}

impl<'a, A, C, D> DB<'a, A, C, D> {
    /// The service whose database this is.
    pub closed spec fn server(&self) -> Server<A, C, D> {
        *self.0
    }

    /// The open connection; `Unavailable` where the service does not run.
    pub fn conn(&self) -> (r: Result<&'a D, Unavailable>)
        ensures
            match r {
                Ok(db) => self.server().spec_db() == Some(*db),
                Err(_) => self.server() is Stopped,
            },
    {
        match self.0 {
            Server::Stopped => Err(Unavailable),
            Server::Running { db, .. } => Ok(db),
        }
    }
}

/// The listener on every address: there while network access is enabled, with
/// the TLS acceptor that guards it and the port it is bound to.
#[derive(Debug)]
pub enum NetworkServer<L, T> {
    /// Network access is disabled.
    Disabled,
    /// Network access is enabled.
    Enabled {
        /// The listener on every address.
        listener: L,
        /// Does the TLS handshake on what the listener accepts.
        acceptor: T,
        /// The port that the listener is bound to.
        port: u16,
    },
}

impl<L, T> NetworkServer<L, T> {
    /// The port of the listener, while there is one.
    pub open spec fn spec_port(&self) -> Option<u16> {
        match *self {
            NetworkServer::Disabled => None,
            NetworkServer::Enabled { port, .. } => Some(port),
        }
    }

    /// The port of the listener, while there is one.
    #[verifier::when_used_as_spec(spec_port)]
    pub fn port(&self) -> (port: Option<u16>)
        ensures
            port == self.spec_port(),
    {
        match self {
            NetworkServer::Disabled => None,
            NetworkServer::Enabled { port, .. } => Some(*port),
        }
    }

    /// The listener to accept on, while there is one: with network access
    /// disabled nothing is ever accepted.
    pub fn accept(&self) -> (listener: Option<&L>)
        ensures
            match listener {
                Some(l) => *self matches NetworkServer::Enabled { listener, .. } && *l == listener,
                None => *self is Disabled,
            },
    {
        match self {
            NetworkServer::Disabled => None,
            NetworkServer::Enabled { listener, .. } => Some(listener),
        }
    }

    /// The acceptor for what the listener accepted, while there is one.
    pub fn acceptor(&self) -> (acceptor: Option<&T>)
        ensures
            match acceptor {
                Some(a) => *self matches NetworkServer::Enabled { acceptor, .. } && *a == acceptor,
                None => *self is Disabled,
            },
    {
        match self {
            NetworkServer::Disabled => None,
            NetworkServer::Enabled { acceptor, .. } => Some(acceptor),
        }
    }
}

impl<L, T> Default for NetworkServer<L, T> {
    fn default() -> (network: Self)
        ensures
            network is Disabled,
    {
        NetworkServer::Disabled
    }
}

/// What the control loop wakes up to.
#[derive(Debug)]
pub enum Event<L, T> {
    /// The loopback listener accepted a connection.
    Accepted,
    /// The loopback listener failed to accept.
    AcceptFailed,
    /// The listener on every address accepted a connection.
    NetworkAccepted,
    /// The listener on every address failed to accept.
    NetworkAcceptFailed,
    /// A control message came in.
    Message(Message),
    /// The listener and acceptor that were asked for are there, bound to this
    /// port.
    Created(L, T, u16),
    /// The listener and acceptor that were asked for could not be made.
    CreateFailed(Error),
    /// The process was interrupted.
    Interrupt,
    /// The process was asked to terminate.
    Terminate,
}

/// What the control loop is to do about an event.
#[derive(Debug)]
pub enum Action {
    /// Go on waiting.
    Continue,
    /// Hand the accepted connection to a task of its own.
    Serve,
    /// Hand the accepted connection to a task of its own, which does the TLS
    /// handshake first.
    Handshake,
    /// Make a listener on every address and a TLS acceptor, and come back
    /// with `Created` or `CreateFailed`.
    Create,
    /// Answer a request to listen on every address.
    ReplyPort(Result<u16, Error>),
    /// Answer a query for the port.
    ReplyQuery(Option<u16>),
    /// Leave the loop.
    Exit,
}

/// The state after an event and what is to be done about it.
pub open spec fn transition<L, T>(network: NetworkServer<L, T>, event: Event<L, T>) -> (
    NetworkServer<L, T>,
    Action,
) {
    match event {
        Event::Accepted => (network, Action::Serve),
        Event::AcceptFailed => (network, Action::Continue),
        Event::NetworkAccepted => match network {
            NetworkServer::Disabled => (network, Action::Continue),
            NetworkServer::Enabled { .. } => (network, Action::Handshake),
        },
        Event::NetworkAcceptFailed => (network, Action::Continue),
        Event::Message(Message::ListenAnyAddr) => match network {
            NetworkServer::Disabled => (network, Action::Create),
            NetworkServer::Enabled { port, .. } => (network, Action::ReplyPort(Ok(port))),
        },
        Event::Message(Message::CloseAnyAddr) => (NetworkServer::Disabled, Action::Continue),
        Event::Message(Message::QueryAnyAddrPort) => (
            network,
            Action::ReplyQuery(network.spec_port()),
        ),
        Event::Message(Message::Shutdown) => (network, Action::Exit),
        Event::Created(listener, acceptor, port) => (
            NetworkServer::Enabled { listener, acceptor, port },
            Action::ReplyPort(Ok(port)),
        ),
        Event::CreateFailed(error) => (network, Action::ReplyPort(Err(error))),
        Event::Interrupt => (network, Action::Exit),
        Event::Terminate => (network, Action::Exit),
    }
}

/// One turn of the control loop: takes an event, moves the listener on every
/// address to its next state and says what is to be done.
///
/// A failure to accept never stops the loop. A request to listen is answered
/// with the port at once where the listener is there; where it is not, it is
/// to be made, and the answer follows what comes of that. A request to close
/// drops listener and acceptor, whether or not there were any. A request to
/// shut down and either signal end the loop.
pub fn step<L, T>(network: &mut NetworkServer<L, T>, event: Event<L, T>) -> (action: Action)
    ensures
        (*final(network), action) == transition(*old(network), event),
{
    match event {
        Event::Accepted => Action::Serve,
        Event::AcceptFailed => Action::Continue,
        Event::NetworkAccepted => match network.port() {
            None => Action::Continue,
            Some(_) => Action::Handshake,
        },
        Event::NetworkAcceptFailed => Action::Continue,
        Event::Message(Message::ListenAnyAddr) => match network.port() {
            None => Action::Create,
            Some(port) => Action::ReplyPort(Ok(port)),
        },
        Event::Message(Message::CloseAnyAddr) => {
            *network = NetworkServer::Disabled;
            Action::Continue
        },
        Event::Message(Message::QueryAnyAddrPort) => Action::ReplyQuery(network.port()),
        Event::Message(Message::Shutdown) => Action::Exit,
        Event::Created(listener, acceptor, port) => {
            *network = NetworkServer::Enabled { listener, acceptor, port };
            Action::ReplyPort(Ok(port))
        },
        Event::CreateFailed(error) => Action::ReplyPort(Err(error)),
        Event::Interrupt => Action::Exit,
        Event::Terminate => Action::Exit,
    }
}

/// Once network access is enabled on a port, a query is answered with that
/// port, and so is every further request to listen, which changes nothing.
pub proof fn lemma_enabled_port_is_reported<L, T>(
    network: NetworkServer<L, T>,
    listener: L,
    acceptor: T,
    port: u16,
)
    ensures
        ({
            let enabled = transition(network, Event::Created(listener, acceptor, port)).0;
            &&& enabled.spec_port() == Some(port)
            &&& transition(enabled, Event::Message(Message::QueryAnyAddrPort)) == (
                enabled,
                Action::ReplyQuery(Some(port)),
            )
            &&& transition(enabled, Event::Message(Message::ListenAnyAddr)) == (
                enabled,
                Action::ReplyPort(Ok(port)),
            )
        }),
{
}

/// Once network access is disabled, from whatever state, a query is answered
/// with no port, and disabling again changes nothing.
pub proof fn lemma_disabled_reports_no_port<L, T>(network: NetworkServer<L, T>)
    ensures
        ({
            let disabled = transition(network, Event::Message(Message::CloseAnyAddr)).0;
            &&& disabled is Disabled
            &&& transition(disabled, Event::Message(Message::QueryAnyAddrPort)) == (
                disabled,
                Action::ReplyQuery(None),
            )
            &&& transition(disabled, Event::Message(Message::CloseAnyAddr)).0 == disabled
        }),
{
}

/// A service that was published answers a request to start with the address
/// it was published with, and stays as it is: nothing is bound or opened
/// a second time.
pub proof fn lemma_start_twice<A, C, D>(addr: A, channel: C, db: D)
    ensures
        startup(Server::Running { addr, channel, db }) == Startup::AlreadyRunning(addr),
        startup(Server::<A, C, D>::Stopped) == Startup::<A>::Initialize,
{
}

/// The path `/`.
pub const ROOT: [u8; 1] = [47];

/// The path `/js/app.js`.
pub const SCRIPT: [u8; 10] = [47, 106, 115, 47, 97, 112, 112, 46, 106, 115];

/// The path `/ws`.
pub const SOCKET: [u8; 3] = [47, 119, 115];

/// Seconds that a client has to send the first line of its request.
pub const TIMEOUT: u64 = 60;

/// What a request is answered with.
#[derive(Debug, Clone, Copy, PartialEq, Eq, Structural)]
pub enum Route {
    /// The page.
    Index,
    /// The script of the page.
    Script,
    /// An upgrade to a web socket, on which operations are called.
    WebSocket,
    /// Nothing: there is no such path.
    NotFound,
}

/// The length of the path of a request: of what stands before the first
/// question mark.
pub open spec fn path_len(uri: Seq<u8>) -> nat
    decreases uri.len(),
{
    if uri.len() == 0 || uri[0] == 0x3f {
        0
    } else {
        1 + path_len(uri.drop_first())
    }
}

/// The path of a request.
pub open spec fn path_of(uri: Seq<u8>) -> Seq<u8> {
    uri.take(path_len(uri) as int)
}

/// What a request for `uri` is answered with.
pub open spec fn routed(uri: Seq<u8>) -> Route {
    let path = path_of(uri);
    if path == ROOT@ {
        Route::Index
    } else if path == SCRIPT@ {
        Route::Script
    } else if path == SOCKET@ {
        Route::WebSocket
    } else {
        Route::NotFound
    }
}

proof fn lemma_path_len(uri: Seq<u8>, n: int)
    requires
        0 <= n <= uri.len(),
        forall|j: int| 0 <= j < n ==> uri[j] != 0x3f,
        n == uri.len() || uri[n] == 0x3f,
    ensures
        path_len(uri) == n,
    decreases n,
{
    if n > 0 {
        lemma_path_len(uri.drop_first(), n - 1);
    }
}

impl Route {
    /// The type of what is sent, where a document is sent.
    pub fn content_type(&self) -> (r: Option<&'static str>)
        ensures
            match *self {
                Route::Index => r matches Some(t) && t@ == "text/html"@,
                Route::Script => r matches Some(t) && t@ == "text/javascript"@,
                _ => r is None,
            },
    {
        match self {
            Route::Index => Some("text/html"),
            Route::Script => Some("text/javascript"),
            _ => None,
        }
    }
}

/// Decides what a request is answered with, by its path: what follows a
/// question mark does not count.
pub fn route(uri: &[u8]) -> (r: Route)
    ensures
        r == routed(uri@),
{
    let mut n: usize = 0;
    while n < uri.len() && uri[n] != 0x3f
        invariant
            n <= uri.len(),
            forall|j: int| 0 <= j < n ==> uri@[j] != 0x3f,
        decreases uri.len() - n,
    {
        n = n + 1;
    }
    proof {
        lemma_path_len(uri@, n as int);
    }
    let path = slice_subrange(uri, 0, n);
    if same_bytes(path, array_as_slice(&ROOT)) {
        Route::Index
    } else if same_bytes(path, array_as_slice(&SCRIPT)) {
        Route::Script
    } else if same_bytes(path, array_as_slice(&SOCKET)) {
        Route::WebSocket
    } else {
        Route::NotFound
    }
}

} // verus!
