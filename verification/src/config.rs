//! What a node is set up with, and the settings that both sides of a data
//! channel agree on without exchanging them.

use vstd::prelude::*;

verus! {

/// The label of the data channel between two peers.
pub const DATA_CHANNEL_LABEL: &'static str = "hyperspace-protocol";

/// The stream id of the data channel between two peers.
pub const DATA_CHANNEL_ID: u16 = 42;

/// The TCP port on which framed sockets are accepted unless another is set.
pub const DEFAULT_PORT: u16 = 3030;

/// The number of envelopes that the inbox holds unless another is set.
pub const DEFAULT_INBOX_CAPACITY: usize = 10;

/// The settings of the data channel that both peers create on their side:
/// it is agreed on beforehand, so nothing is negotiated in band.
#[derive(Debug, PartialEq, Eq)]
pub struct ChannelSettings {
    pub label: String,
    pub id: u16,
    pub negotiated: bool,
}

/// The settings of the data channel between two peers.
pub fn data_channel() -> (r: ChannelSettings)
    ensures
        r.label@ == DATA_CHANNEL_LABEL@,
        r.id == DATA_CHANNEL_ID,
        r.negotiated,
{
    ChannelSettings {
        label: String::from_str(DATA_CHANNEL_LABEL),
        id: DATA_CHANNEL_ID,
        negotiated: true,
    }
}

/// The STUN servers that are used unless others are set.
pub open spec fn default_stun() -> Seq<Seq<char>> {
    seq![
        "stun:stun.l.google.com:19302"@,
        "stun:stun1.l.google.com:19302"@,
        "stun:stun2.l.google.com:19302"@,
        "stun:stun3.l.google.com:19302"@,
        "stun:stun4.l.google.com:19302"@,
    ]
}

/// The STUN servers that are used unless others are set.
pub fn default_stun_servers() -> (r: Vec<String>)
    ensures
        r.deep_view() == default_stun(),
{
    let mut servers: Vec<String> = Vec::new();
    servers.push(String::from_str("stun:stun.l.google.com:19302"));
    servers.push(String::from_str("stun:stun1.l.google.com:19302"));
    servers.push(String::from_str("stun:stun2.l.google.com:19302"));
    servers.push(String::from_str("stun:stun3.l.google.com:19302"));
    servers.push(String::from_str("stun:stun4.l.google.com:19302"));
    assert(servers.deep_view() =~= default_stun());
    servers
}

/// What a node is set up with. Nothing of it changes while the node runs.
#[derive(Debug, PartialEq, Eq)]
pub struct Config {
    /// The TCP port on which framed sockets are accepted.
    pub listen_port: u16,
    /// The STUN servers that peer connections use.
    pub stun_servers: Vec<String>,
    /// The endpoints that the node advertises in its greeting.
    pub addresses: Vec<String>,
    /// The number of envelopes that the inbox holds.
    pub inbox_capacity: usize,
}

impl Default for Config {
    fn default() -> (r: Config)
        ensures
            r.listen_port == DEFAULT_PORT,
            r.stun_servers.deep_view() == default_stun(),
            r.addresses.deep_view() == seq!["ws://localhost:3030"@],
            r.inbox_capacity == DEFAULT_INBOX_CAPACITY,
    {
        let mut addresses: Vec<String> = Vec::new();
        addresses.push(String::from_str("ws://localhost:3030"));
        assert(addresses.deep_view() =~= seq!["ws://localhost:3030"@]);
        Config {
            listen_port: DEFAULT_PORT,
            stun_servers: default_stun_servers(),
            addresses,
            inbox_capacity: DEFAULT_INBOX_CAPACITY,
        }
    }
}

} // verus!
