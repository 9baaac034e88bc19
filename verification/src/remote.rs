//! Remote hosts: the memory and disk figures a remote server sends, and
//! the connection status of each host as its SSH stream runs. The program
//! spawns `ssh`, reads the JSON lines and reports what happened.

use vstd::prelude::*;

use crate::text::{chars_of, push_str, split_on, split_sep, string_of, views};

verus! {

/// Memory figures of a remote host, in bytes.
#[derive(Clone, Copy, Debug, PartialEq, Eq, Structural)]
pub struct RemoteMem {
    pub used: u64,
    pub free: u64,
    pub total: u64,
    pub cached: u64,
    pub buffers: u64,
    pub swap_used: u64,
    pub swap_total: u64,
}

/// One mounted file system of a remote host.
#[derive(Clone, Debug)]
pub struct RemoteDisk {
    pub name: String,
    pub mount: String,
    pub used: u64,
    pub total: u64,
    pub fs: String,
}

/// The state of the connection to a remote host.
#[derive(Clone, Debug)]
pub enum ConnectionStatus {
    Connecting,
    Connected,
    Error(String),
    Disconnected,
}

/// What happened on the connection to a remote host.
#[derive(Clone, Debug)]
pub enum LinkEvent {
    /// Monitoring of the host began.
    Started,
    /// `ssh` could not be spawned; the text is the system's reason.
    SpawnFailed(String),
    /// A line of the stream held a packet.
    Packet,
    /// Reading the stream failed; the text is the reason.
    ReadFailed(String),
    /// The stream ended.
    StreamEnded,
    /// Monitoring was stopped.
    Stopped,
}

/// A connection status as plain values: 0 connecting, 1 connected, 2 an
/// error with its text, 3 disconnected.
pub open spec fn status_view(s: ConnectionStatus) -> (int, Seq<char>) {
    match s {
        ConnectionStatus::Connecting => (0, seq![]),
        ConnectionStatus::Connected => (1, seq![]),
        ConnectionStatus::Error(e) => (2, e@),
        ConnectionStatus::Disconnected => (3, seq![]),
    }
}

/// The status after event `e` in status `s`. A failure to spawn reports
/// "spawn failed: " and the reason. When the stream ends, the status turns
/// to disconnected unless it is an error with an empty text.
pub open spec fn status_after(s: (int, Seq<char>), e: LinkEvent) -> (int, Seq<char>) {
    match e {
        LinkEvent::Started => (0, seq![]),
        LinkEvent::SpawnFailed(why) => (2, "spawn failed: "@ + why@),
        LinkEvent::Packet => (1, seq![]),
        LinkEvent::ReadFailed(why) => (2, why@),
        LinkEvent::StreamEnded => if s.0 == 2 && s.1.len() == 0 {
            s
        } else {
            (3, seq![])
        },
        LinkEvent::Stopped => (3, seq![]),
    }
}

impl ConnectionStatus {
    /// The status after `event`.
    pub fn after(self, event: LinkEvent) -> (r: ConnectionStatus)
        ensures
            status_view(r) == status_after(status_view(self), event),
    {
        match event {
            LinkEvent::Started => ConnectionStatus::Connecting,
            LinkEvent::SpawnFailed(why) => {
                let mut text = "spawn failed: ".to_owned();
                push_str(&mut text, why.as_str());
                ConnectionStatus::Error(text)
            },
            LinkEvent::Packet => ConnectionStatus::Connected,
            LinkEvent::ReadFailed(why) => ConnectionStatus::Error(why),
            LinkEvent::StreamEnded => match self {
                ConnectionStatus::Error(e) => {
                    if e.as_str().unicode_len() == 0 {
                        ConnectionStatus::Error(e)
                    } else {
                        ConnectionStatus::Disconnected
                    }
                },
                _ => ConnectionStatus::Disconnected,
            },
            LinkEvent::Stopped => ConnectionStatus::Disconnected,
        }
    }

    /// Whether the host is connected.
    pub fn is_connected(&self) -> (r: bool)
        ensures
            r == (status_view(*self).0 == 1),
    {
        match self {
            ConnectionStatus::Connected => true,
            _ => false,
        }
    }
}

/// After a packet arrives the host is connected, whatever its status was.
pub proof fn packet_connects(s: ConnectionStatus)
    ensures
        status_after(status_view(s), LinkEvent::Packet).0 == 1,
{
}

/// Stopping leaves every host disconnected, and the end of a stream leaves
/// a host that was not in error disconnected.
pub proof fn stop_and_end_disconnect(s: ConnectionStatus)
    ensures
        status_after(status_view(s), LinkEvent::Stopped).0 == 3,
        status_view(s).0 != 2 ==> status_after(status_view(s), LinkEvent::StreamEnded).0 == 3,
{
}

/// The short display label of an SSH address: the part after its last
/// `@` (the whole address when it has none).
pub open spec fn host_label_of(address: Seq<char>) -> Seq<char> {
    split_sep(address, '@').last()
}

/// The short display label of an SSH address such as "user@host".
pub fn host_label(address: &str) -> (r: String)
    ensures
        r@ == host_label_of(address@),
{
    let cs = chars_of(address);
    let parts = split_on(cs.as_slice(), '@');
    let n = parts.len();
    proof {
        assert(views(parts@).len() == parts@.len());
        assert(views(parts@)[n - 1] == parts@[n - 1]@);
    }
    string_of(parts[n - 1].as_slice())
}

} // verus!
