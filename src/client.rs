//! Where a local bundle daemon is reached, and the records exchanged with it
//! over its WebSocket interface.
use vstd::prelude::*;

verus! {

/// The host and port of a local bundle daemon.
#[derive(Debug)]
pub struct DtnClient {
    localhost: String,
    port: u16,
}

pub struct DtnClientModel {
    pub localhost: Seq<char>,
    pub port: u16,
}

impl View for DtnClient {
    type V = DtnClientModel;

    closed spec fn view(&self) -> DtnClientModel {
        DtnClientModel { localhost: self.localhost@, port: self.port }
    }
}

/// The port a daemon listens on unless told otherwise.
pub const DEFAULT_PORT: u16 = 3000;

impl DtnClient {
    /// A client for `127.0.0.1`, port 3000.
    pub fn new() -> (r: DtnClient)
        ensures
            r@.localhost == "127.0.0.1"@,
            r@.port == DEFAULT_PORT,
    {
        DtnClient { localhost: "127.0.0.1".to_owned(), port: DEFAULT_PORT }
    }

    /// A client for the given host and port.
    pub fn with_host_and_port(localhost: String, port: u16) -> (r: DtnClient)
        ensures
            r@.localhost == localhost@,
            r@.port == port,
    {
        DtnClient { localhost, port }
    }

    pub fn localhost(&self) -> (r: &str)
        ensures
            r@ == self@.localhost,
    {
        self.localhost.as_str()
    }

    pub fn port(&self) -> (r: u16)
        ensures
            r == self@.port,
    {
        self.port
    }
}

/// Data from which the daemon builds and sends a bundle.
#[derive(Debug)]
pub struct WsSendData {
    /// Source with a URI scheme, such as `dtn://node1`.
    pub src: String,
    /// Destination with a URI scheme, such as `dtn://node1/sms`.
    pub dst: String,
    /// Whether delivery notifications are asked for.
    pub delivery_notification: bool,
    /// Lifetime of the bundle in milliseconds.
    pub lifetime: u64,
    pub data: Vec<u8>,
}

/// A received bundle payload with its metadata.
#[derive(Debug)]
pub struct WsRecvData {
    pub bid: String,
    pub src: String,
    pub dst: String,
    pub data: Vec<u8>,
}

} // verus!
