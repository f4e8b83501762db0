//! The state of a WebSocket client, and its configuration.

use crate::pending::{no_entries, PendingBatchRequests, PendingRequests};
use crate::request_id::RequestIdManager;
use core::time::Duration;
use vstd::prelude::*;

verus! {

/// The state behind a WebSocket client and its background tasks: the single
/// underlying connection `C`, plus the bookkeeping that correlates wire traffic
/// back to callers.
pub struct WsClientInner<C> {
    pub client: C,
    pub request_id_manager: RequestIdManager,
    pub pending_requests: PendingRequests,
    pub pending_batch_requests: PendingBatchRequests,
    pub ping_interval: Option<Duration>,
    pub request_timeout: Option<Duration>,
}

/// Configures the `ping_interval` and `request_timeout` of a WebSocket client
/// over the connection `C`.
pub struct WsClientBuilder<C> {
    client: C,
    ping_interval: Option<Duration>,
    request_timeout: Option<Duration>,
}

/// What a [`WsClientBuilder`] is set to.
pub struct ConfigView<C> {
    pub client: C,
    pub ping_interval: Option<Duration>,
    pub request_timeout: Option<Duration>,
}

impl<C> View for WsClientBuilder<C> {
    type V = ConfigView<C>;

    closed spec fn view(&self) -> ConfigView<C> {
        ConfigView {
            client: self.client,
            ping_interval: self.ping_interval,
            request_timeout: self.request_timeout,
        }
    }
}

impl<C> WsClientBuilder<C> {
    /// Starts from an already-constructed connection, with nothing configured.
    pub fn from_websocket_client(client: C) -> (builder: Self)
        ensures
            builder@ == (ConfigView { client, ping_interval: None, request_timeout: None }),
    {
        WsClientBuilder { client, ping_interval: None, request_timeout: None }
    }

    /// Sends a `Ping` on this interval to keep the connection alive and detect
    /// a dead peer. Disabled (`None`) by default.
    pub fn ping_interval(self, interval: Duration) -> (builder: Self)
        ensures
            builder@ == (ConfigView { ping_interval: Some(interval), ..self@ }),
    {
        WsClientBuilder {
            client: self.client,
            ping_interval: Some(interval),
            request_timeout: self.request_timeout,
        }
    }

    /// Default timeout applied to requests and batches when no explicit timeout
    /// is given.
    pub fn request_timeout(self, timeout: Duration) -> (builder: Self)
        ensures
            builder@ == (ConfigView { request_timeout: Some(timeout), ..self@ }),
    {
        WsClientBuilder {
            client: self.client,
            ping_interval: self.ping_interval,
            request_timeout: Some(timeout),
        }
    }

    /// Builds the state of a client: no id taken, nothing in flight.
    pub fn build(self) -> (inner: WsClientInner<C>)
        ensures
            inner.client == self@.client,
            inner.ping_interval == self@.ping_interval,
            inner.request_timeout == self@.request_timeout,
            inner.request_id_manager.next_id() == 0,
            no_entries(inner.pending_requests@),
            no_entries(inner.pending_batch_requests@),
    {
        WsClientInner {
            client: self.client,
            request_id_manager: RequestIdManager::new(),
            pending_requests: PendingRequests::new(),
            pending_batch_requests: PendingBatchRequests::new(),
            ping_interval: self.ping_interval,
            request_timeout: self.request_timeout,
        }
    }
}

} // verus!
