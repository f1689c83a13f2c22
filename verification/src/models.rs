//! Plain data exchanged with the control plane and the status surface.

use vstd::prelude::*;

verus! {

/// An upstream endpoint, bound to an account for quota purposes.
#[derive(Debug)]
pub struct StreamUrl {
    pub account_id: u64,
    pub url: String,
}

/// The model of a [`StreamUrl`].
pub struct StreamUrlView {
    pub account_id: u64,
    pub url: Seq<char>,
}

impl View for StreamUrl {
    type V = StreamUrlView;

    open spec fn view(&self) -> StreamUrlView {
        StreamUrlView { account_id: self.account_id, url: self.url@ }
    }
}

impl Clone for StreamUrl {
    fn clone(&self) -> (copy: StreamUrl)
        ensures
            copy@ == self@,
    {
        StreamUrl { account_id: self.account_id, url: self.url.clone() }
    }
}

/// One stream variant of a channel; `urls` is its failover order.
#[derive(Debug)]
pub struct StreamConfig {
    pub id: u64,
    pub urls: Vec<StreamUrl>,
}

/// The model of a [`StreamConfig`].
pub struct StreamView {
    pub id: u64,
    pub urls: Seq<StreamUrlView>,
}

impl View for StreamConfig {
    type V = StreamView;

    open spec fn view(&self) -> StreamView {
        StreamView { id: self.id, urls: self.urls@.map_values(|u: StreamUrl| u@) }
    }
}

impl Clone for StreamConfig {
    fn clone(&self) -> (copy: StreamConfig)
        ensures
            copy@ == self@,
    {
        let urls = self.urls.clone();
        assert(urls@.map_values(|u: StreamUrl| u@) =~= self.urls@.map_values(|u: StreamUrl| u@));
        StreamConfig { id: self.id, urls }
    }
}

/// The routing of one channel as the control plane declares it.
#[derive(Debug)]
pub struct ChannelConfig {
    pub streams: Vec<StreamConfig>,
}

impl View for ChannelConfig {
    type V = Seq<StreamView>;

    open spec fn view(&self) -> Seq<StreamView> {
        self.streams@.map_values(|s: StreamConfig| s@)
    }
}

impl Clone for ChannelConfig {
    fn clone(&self) -> (copy: ChannelConfig)
        ensures
            copy@ == self@,
    {
        let streams = self.streams.clone();
        assert(streams@.map_values(|s: StreamConfig| s@) =~= self.streams@.map_values(
            |s: StreamConfig| s@,
        ));
        ChannelConfig { streams }
    }
}

/// The connection cap of one account; zero means unlimited.
#[derive(Clone, Copy, Debug)]
pub struct AccountConfig {
    pub max_connections: u32,
}

/// A bulk reconciliation payload. Entries are applied in order, so of two
/// entries for one key the later one stands. Account keys are decimal
/// strings; a key that is no `u64` is skipped.
#[derive(Clone, Debug)]
pub struct SyncRequest {
    pub channels: Vec<(String, ChannelConfig)>,
    pub accounts: Vec<(String, AccountConfig)>,
}

/// The model of a [`SyncRequest`].
pub struct SyncView {
    pub channels: Seq<(Seq<char>, Seq<StreamView>)>,
    pub accounts: Seq<(Seq<char>, u32)>,
}

impl View for SyncRequest {
    type V = SyncView;

    open spec fn view(&self) -> SyncView {
        SyncView { channels: channel_views(self.channels@), accounts: limit_views(self.accounts@) }
    }
}

/// The models of a payload's channel entries, in the payload's order.
pub open spec fn channel_views(channels: Seq<(String, ChannelConfig)>) -> Seq<
    (Seq<char>, Seq<StreamView>),
> {
    channels.map_values(|e: (String, ChannelConfig)| (e.0@, e.1@))
}

/// The models of a payload's account entries, in the payload's order.
pub open spec fn limit_views(accounts: Seq<(String, AccountConfig)>) -> Seq<(Seq<char>, u32)> {
    accounts.map_values(|e: (String, AccountConfig)| (e.0@, e.1.max_connections))
}

/// The upstream a live channel is connected to.
#[derive(Clone, Debug)]
pub struct UpstreamStatus {
    pub stream_id: u64,
    pub account_id: u64,
    pub url: String,
    pub connected_since: String,
    pub bytes_transferred: u64,
}

/// Whether a channel is live, and with how many clients.
#[derive(Clone, Debug)]
pub struct ChannelStatus {
    pub state: String,
    pub clients: u32,
    pub upstream: Option<UpstreamStatus>,
}

/// One attached client.
#[derive(Clone, Debug)]
pub struct ClientInfo {
    pub id: String,
    pub connected_since: String,
    pub bytes_sent: u64,
    pub remote_addr: String,
}

/// The quota counters of one account.
#[derive(Clone, Copy, Debug)]
pub struct AccountStatus {
    pub active_connections: u32,
    pub max_connections: u32,
}

/// Every routed channel and every account, each listed once; a channel
/// under its id, an account under the decimal text of its id.
#[derive(Clone, Debug)]
pub struct ChannelsResponse {
    pub channels: Vec<(String, ChannelStatus)>,
    pub accounts: Vec<(String, AccountStatus)>,
}

/// The status of one channel with its clients.
#[derive(Clone, Debug)]
pub struct ChannelDetailResponse {
    pub status: ChannelStatus,
    pub clients: Vec<ClientInfo>,
}

/// Liveness summary of the process.
#[derive(Clone, Debug)]
pub struct HealthResponse {
    pub status: String,
    pub uptime_seconds: u64,
    pub active_channels: usize,
    pub total_clients: u32,
}

} // verus!
