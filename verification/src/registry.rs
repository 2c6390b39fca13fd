//! The channel registry: the one component callers talk to.
//!
//! A [`WebSocketManager`] maps connection identifiers to channels and
//! routes every per-channel operation to the matching entry, surfacing
//! `ChannelNotFound` for an unknown identifier.  A failed first connect
//! leaves the channel registered in its `Error` state for the caller to
//! inspect; the caller closes and reopens it explicitly.

use vstd::prelude::*;

use crate::channel::{
    clone_status, spec_message_frame, ConnectionStatus, QueuedMessage, ReconnectDecision,
    StatusV, WebSocketClient, unique_views, spec_connect_url, spec_sub_insert,
    spec_subs_contains,
};
use crate::codec::{spec_read_receipt_frame, spec_subscribe_frame, spec_typing_frame, spec_unsubscribe_frame};
use crate::errors::ChannelError;
use crate::outside::new_uuid_string;
use crate::strutil::{lemma_index_of_props, lemma_index_of_skip, spec_index_of};

verus! {

/// Request to open a channel.
#[derive(Debug)]
pub struct ConnectRequest {
    pub url: String,
    pub auth_token: Option<String>,
}

/// Request to send a message over an open channel.
#[derive(Debug)]
pub struct SendWebSocketMessageRequest {
    pub connection_id: String,
    pub consultation_id: String,
    pub message_type: String,
    pub content: String,
    pub file_path: Option<String>,
}

/// Request to change a consultation subscription.
#[derive(Debug)]
pub struct SubscriptionRequest {
    pub connection_id: String,
    pub consultation_id: String,
}

/// Request to report a message as read.
#[derive(Debug)]
pub struct ReadReceiptRequest {
    pub connection_id: String,
    pub consultation_id: String,
    pub message_id: String,
}

/// Request to report the typing state.
#[derive(Debug)]
pub struct TypingStatusRequest {
    pub connection_id: String,
    pub consultation_id: String,
    pub is_typing: bool,
}

/// A status as reported outward: its tag, plus the error text when the
/// channel failed.
#[derive(Debug)]
pub struct ConnectionStatusResponse {
    pub status: String,
    pub error_message: Option<String>,
}

/// The tag a status is reported under.
pub open spec fn spec_status_tag(s: StatusV) -> Seq<char> {
    match s {
        StatusV::Disconnected => "disconnected"@,
        StatusV::Connecting => "connecting"@,
        StatusV::Connected => "connected"@,
        StatusV::Reconnecting => "reconnecting"@,
        StatusV::Error(_) => "error"@,
    }
}

impl ConnectionStatusResponse {
    /// Renders a status for the hosting layer: the five tags, with the
    /// reason carried along only for `Error`.
    pub fn from_status(status: ConnectionStatus) -> (r: ConnectionStatusResponse)
        ensures
            r.status@ == spec_status_tag(status@),
            match status@ {
                StatusV::Error(m) => r.error_message matches Some(em) && em@ == m,
                _ => r.error_message is None,
            },
    {
        match status {
            ConnectionStatus::Disconnected => ConnectionStatusResponse {
                status: String::from_str("disconnected"),
                error_message: None,
            },
            ConnectionStatus::Connecting => ConnectionStatusResponse {
                status: String::from_str("connecting"),
                error_message: None,
            },
            ConnectionStatus::Connected => ConnectionStatusResponse {
                status: String::from_str("connected"),
                error_message: None,
            },
            ConnectionStatus::Reconnecting => ConnectionStatusResponse {
                status: String::from_str("reconnecting"),
                error_message: None,
            },
            ConnectionStatus::Error(m) => ConnectionStatusResponse {
                status: String::from_str("error"),
                error_message: Some(m),
            },
        }
    }
}

/// Registry of channels, keyed by connection identifier.
pub struct WebSocketManager {
    clients: Vec<(String, WebSocketClient)>,
}

impl WebSocketManager {
    /// The registered entries, in registration order.
    pub closed spec fn entries(&self) -> Seq<(String, WebSocketClient)> {
        self.clients@
    }

    /// The registered identifiers.
    pub open spec fn ids(&self) -> Seq<Seq<char>> {
        self.entries().map_values(|p: (String, WebSocketClient)| p.0@)
    }

    /// The channel at position `k`.
    pub open spec fn client_at(&self, k: int) -> WebSocketClient {
        self.entries()[k].1
    }

    /// Identifiers are unique and every channel is well formed.
    pub open spec fn wf(&self) -> bool {
        &&& unique_views(self.ids())
        &&& forall|k: int| 0 <= k < self.entries().len() ==> (#[trigger] self.client_at(k)).wf()
    }

    /// An empty registry.
    pub fn new() -> (r: WebSocketManager)
        ensures
            r.wf(),
            r.entries() == Seq::<(String, WebSocketClient)>::empty(),
    {
        let r = WebSocketManager { clients: Vec::new() };
        proof {
            assert(r.ids() =~= Seq::<Seq<char>>::empty());
        }
        r
    }

    /// How many channels are open.
    pub fn connection_count(&self) -> (r: usize)
        ensures
            r == self.entries().len(),
    {
        self.clients.len()
    }

    /// Finds the entry registered under `id`.
    fn find_index(&self, id: &str) -> (r: Option<usize>)
        ensures
            match spec_index_of(self.ids(), id@) {
                Some(k) => r matches Some(ri) && ri as nat == k && k < self.entries().len()
                    && self.ids()[k as int] == id@,
                None => r is None,
            },
    {
        let n = self.clients.len();
        let mut i: usize = 0;
        while i < n
            invariant
                n == self.entries().len(),
                0 <= i <= n,
                forall|j: int| 0 <= j < i ==> #[trigger] self.ids()[j] != id@,
            decreases n - i,
        {
            if crate::strutil::str_eq(self.clients[i].0.as_str(), id) {
                proof {
                    assert(self.ids()[i as int] == id@);
                    lemma_index_of_skip(self.ids(), id@, i as int);
                    assert(self.ids().skip(i as int)[0] == self.ids()[i as int]);
                }
                return Some(i);
            }
            proof {
                assert(self.ids()[i as int] != id@);
            }
            i = i + 1;
        }
        proof {
            lemma_index_of_skip(self.ids(), id@, n as int);
            assert(self.ids().skip(n as int) =~= Seq::<Seq<char>>::empty());
        }
        None
    }

    /// Opens a channel: a fresh identifier is drawn, and a disconnected
    /// channel for `url` (with the token, when given) is registered
    /// under it.  The caller then drives the first connect explicitly;
    /// on failure the channel stays registered in its `Error` state.
    pub fn create_connection(&mut self, url: String, auth_token: Option<String>) -> (r: String)
        requires
            old(self).wf(),
        ensures
            final(self).wf(),
            r@.len() == 36,
            spec_index_of(final(self).ids(), r@) matches Some(k) && {
                &&& final(self).client_at(k as int).status_v() is Disconnected
                &&& final(self).client_at(k as int).url_v() == url@
                &&& final(self).client_at(k as int).queue() == Seq::<QueuedMessage>::empty()
                &&& final(self).client_at(k as int).attempts() == 0
                &&& match auth_token {
                    Some(t) => final(self).client_at(k as int).token_v() == Some(t@),
                    None => final(self).client_at(k as int).token_v() is None,
                }
            },
            spec_index_of(old(self).ids(), r@) is None ==> final(self).ids() == old(
                self,
            ).ids().push(r@) && (forall|j: int|
                0 <= j < old(self).entries().len() ==> #[trigger] final(self).client_at(j) == old(
                    self,
                ).client_at(j)),
    {
        let id = new_uuid_string();
        let mut client = WebSocketClient::new(url);
        match auth_token {
            Some(t) => client.set_auth_token(t),
            None => {},
        }
        let ghost cl = client;
        let existing = self.find_index(id.as_str());
        match existing {
            Some(k) => {
                proof {
                    lemma_index_of_props(self.ids(), id@);
                }
                self.clients.remove(k);
                let key = id.clone();
                self.clients.insert(k, (key, client));
                proof {
                    assert(self.ids() =~= old(self).ids());
                    assert(self.client_at(k as int) == cl);
                    assert forall|j: int|
                        0 <= j < self.entries().len() implies (#[trigger] self.client_at(
                        j,
                    )).wf() by {
                        if j != k {
                            assert(self.entries()[j] == old(self).entries()[j]);
                            assert(old(self).client_at(j).wf());
                        }
                    }
                    assert(self.ids()[k as int] == id@);
                    lemma_index_of_first(self.ids(), id@);
                    lemma_index_of_props(self.ids(), id@);
                    let k2 = spec_index_of(self.ids(), id@)->Some_0;
                    assert(self.ids()[k2 as int] == id@);
                    if (k2 as int) != (k as int) {
                        if (k2 as int) < (k as int) {
                            assert(self.ids()[k2 as int] != self.ids()[k as int]);
                        } else {
                            assert(self.ids()[k as int] != self.ids()[k2 as int]);
                        }
                    }
                    assert(k2 as int == k as int);
                }
            },
            None => {
                proof {
                    lemma_index_of_props(self.ids(), id@);
                }
                let key = id.clone();
                self.clients.push((key, client));
                proof {
                    assert(self.ids() =~= old(self).ids().push(id@));
                    let last = old(self).entries().len() as int;
                    assert(self.client_at(last) == cl);
                    assert forall|j: int|
                        0 <= j < self.entries().len() implies (#[trigger] self.client_at(
                        j,
                    )).wf() by {
                        if j < last {
                            assert(self.entries()[j] == old(self).entries()[j]);
                            assert(old(self).client_at(j).wf());
                        }
                    }
                    assert forall|a: int, b: int|
                        0 <= a < b < self.ids().len() implies (#[trigger] self.ids()[a]) != (
                    #[trigger] self.ids()[b]) by {
                        if b < last {
                            assert(old(self).ids()[a] != old(self).ids()[b]);
                        } else {
                            assert(self.ids()[b] == id@);
                            assert(old(self).ids()[a] != id@);
                        }
                    }
                    assert(self.ids()[last] == id@);
                    lemma_index_of_first(self.ids(), id@);
                    lemma_index_of_props(self.ids(), id@);
                    let k2 = spec_index_of(self.ids(), id@)->Some_0;
                    assert(self.ids()[k2 as int] == id@);
                    if (k2 as int) != last {
                        if (k2 as int) < last {
                            assert(self.ids()[k2 as int] != self.ids()[last]);
                        } else {
                            assert(self.ids()[last] != self.ids()[k2 as int]);
                        }
                    }
                    assert(k2 as int == last);
                }
            },
        }
        id
    }

    /// Closes a channel: the entry leaves the registry; an unknown
    /// identifier is reported as `ChannelNotFound`.
    pub fn close_connection(&mut self, connection_id: &str) -> (r: Result<(), ChannelError>)
        requires
            old(self).wf(),
        ensures
            final(self).wf(),
            match spec_index_of(old(self).ids(), connection_id@) {
                None => r matches Err(e) && e is ChannelNotFound && final(self).entries() == old(
                    self,
                ).entries(),
                Some(k) => r is Ok && final(self).entries() == old(self).entries().remove(
                    k as int,
                ),
            },
            !(spec_index_of(final(self).ids(), connection_id@) matches Some(_)),
    {
        match self.find_index(connection_id) {
            Some(k) => {
                proof {
                    lemma_index_of_props(self.ids(), connection_id@);
                }
                self.clients.remove(k);
                proof {
                    assert(self.ids() =~= old(self).ids().remove(k as int));
                    assert forall|j: int|
                        0 <= j < self.entries().len() implies (#[trigger] self.client_at(
                        j,
                    )).wf() by {
                        if j < k {
                            assert(self.entries()[j] == old(self).entries()[j]);
                            assert(old(self).client_at(j).wf());
                        } else {
                            assert(self.entries()[j] == old(self).entries()[j + 1]);
                            assert(old(self).client_at(j + 1).wf());
                        }
                    }
                    assert forall|j: int| 0 <= j < self.ids().len() implies #[trigger] self.ids()[j]
                        != connection_id@ by {
                        if j < k {
                            assert(self.ids()[j] == old(self).ids()[j]);
                            assert(old(self).ids()[k as int] != old(self).ids()[j]);
                        } else {
                            assert(self.ids()[j] == old(self).ids()[j + 1]);
                            assert(old(self).ids()[k as int] != old(self).ids()[j + 1]);
                        }
                    }
                    lemma_index_of_props(self.ids(), connection_id@);
                }
                Ok(())
            },
            None => {
                proof {
                    lemma_index_of_props(self.ids(), connection_id@);
                }
                Err(ChannelError::ChannelNotFound { id: String::from_str(connection_id) })
            },
        }
    }

    /// The status of one channel.
    pub fn get_connection_status(&self, connection_id: &str) -> (r: Result<
        ConnectionStatus,
        ChannelError,
    >)
        ensures
            match spec_index_of(self.ids(), connection_id@) {
                None => r matches Err(e) && e is ChannelNotFound,
                Some(k) => r matches Ok(st) && st@ == self.client_at(k as int).status_v(),
            },
    {
        match self.find_index(connection_id) {
            Some(k) => Ok(self.clients[k].1.get_connection_status()),
            None => Err(ChannelError::ChannelNotFound { id: String::from_str(connection_id) }),
        }
    }

    /// Sends a message over one channel: connected, the frame comes
    /// back for the wire; offline, the message is queued on that
    /// channel and never lost; unknown identifiers are reported.
    pub fn send_message(&mut self, connection_id: &str, message: QueuedMessage) -> (r: Result<
        String,
        ChannelError,
    >)
        requires
            old(self).wf(),
        ensures
            final(self).wf(),
            match spec_index_of(old(self).ids(), connection_id@) {
                None => (r matches Err(e) && e is ChannelNotFound && final(self).entries() == old(
                    self,
                ).entries()),
                Some(k) => {
                    &&& final(self).ids() == old(self).ids()
                    &&& (forall|j: int|
                        0 <= j < old(self).entries().len() && j != k ==> final(self).client_at(
                            j,
                        ) == #[trigger] old(self).client_at(j))
                    &&& (old(self).client_at(k as int).status_v() is Connected ==> (
                    r matches Ok(f) && f@ == spec_message_frame(message) && final(self).client_at(
                        k as int,
                    ).queue() == old(self).client_at(k as int).queue()))
                    &&& (!(old(self).client_at(k as int).status_v() is Connected) ==> (
                    r matches Err(e) && e is NotConnected && final(self).client_at(
                        k as int,
                    ).queue() == old(self).client_at(k as int).queue().push(message)))
                    &&& final(self).client_at(k as int).status_v() == old(self).client_at(
                        k as int,
                    ).status_v()
                    &&& final(self).client_at(k as int).subs() == old(self).client_at(
                        k as int,
                    ).subs()
                },
            },
    {
        match self.find_index(connection_id) {
            Some(k) => {
                proof {
                    lemma_index_of_props(self.ids(), connection_id@);
                }
                let (key, mut c) = self.clients.remove(k);
                proof {
                    assert(c == old(self).client_at(k as int));
                    assert(old(self).client_at(k as int).wf());
                }
                let out = c.send_message(message);
                let ghost cl = c;
                let ghost keyv = key@;
                self.clients.insert(k, (key, c));
                proof {
                    assert(self.entries()[k as int].1 == cl);
                    assert(self.ids() =~= old(self).ids());
                    assert forall|j: int|
                        0 <= j < old(self).entries().len() && j != k implies self.client_at(
                        j,
                    ) == #[trigger] old(self).client_at(j) by {
                        assert(self.entries()[j] == old(self).entries()[j]);
                    }
                    assert forall|j: int|
                        0 <= j < self.entries().len() implies (#[trigger] self.client_at(
                        j,
                    )).wf() by {
                        if j != k {
                            assert(self.client_at(j) == old(self).client_at(j));
                            assert(old(self).client_at(j).wf());
                        }
                    }
                }
                out
            },
            None => {
                proof {
                    lemma_index_of_props(self.ids(), connection_id@);
                }
                Err(ChannelError::ChannelNotFound { id: String::from_str(connection_id) })
            },
        }
    }

    /// Adds a subscription on one channel (idempotently) and, while that
    /// channel is connected, returns the control frame to write.
    pub fn subscribe_to_consultation(&mut self, connection_id: &str, consultation_id: String) -> (r: Result<
        Option<String>,
        ChannelError,
    >)
        requires
            old(self).wf(),
        ensures
            final(self).wf(),
            match spec_index_of(old(self).ids(), connection_id@) {
                None => (r matches Err(e) && e is ChannelNotFound && final(self).entries() == old(
                    self,
                ).entries()),
                Some(k) => {
                    &&& final(self).ids() == old(self).ids()
                    &&& (forall|j: int|
                        0 <= j < old(self).entries().len() && j != k ==> final(self).client_at(
                            j,
                        ) == #[trigger] old(self).client_at(j))
                    &&& final(self).client_at(k as int).subs() == spec_sub_insert(
                        old(self).client_at(k as int).subs(),
                        consultation_id@,
                    )
                    &&& (r matches Ok(opt) && match opt {
                        Some(f) => old(self).client_at(k as int).status_v() is Connected && f@
                            == spec_subscribe_frame(consultation_id@),
                        None => !(old(self).client_at(k as int).status_v() is Connected),
                    })
                    &&& final(self).client_at(k as int).status_v() == old(self).client_at(
                        k as int,
                    ).status_v()
                    &&& final(self).client_at(k as int).queue() == old(self).client_at(
                        k as int,
                    ).queue()
                },
            },
    {
        match self.find_index(connection_id) {
            Some(k) => {
                proof {
                    lemma_index_of_props(self.ids(), connection_id@);
                }
                let (key, mut c) = self.clients.remove(k);
                proof {
                    assert(c == old(self).client_at(k as int));
                    assert(old(self).client_at(k as int).wf());
                }
                let out = c.subscribe_to_consultation(consultation_id);
                let ghost cl = c;
                self.clients.insert(k, (key, c));
                proof {
                    assert(self.entries()[k as int].1 == cl);
                    assert(self.ids() =~= old(self).ids());
                    assert forall|j: int|
                        0 <= j < old(self).entries().len() && j != k implies self.client_at(
                        j,
                    ) == #[trigger] old(self).client_at(j) by {
                        assert(self.entries()[j] == old(self).entries()[j]);
                    }
                    assert forall|j: int|
                        0 <= j < self.entries().len() implies (#[trigger] self.client_at(
                        j,
                    )).wf() by {
                        if j != k {
                            assert(self.client_at(j) == old(self).client_at(j));
                            assert(old(self).client_at(j).wf());
                        }
                    }
                }
                Ok(out)
            },
            None => {
                proof {
                    lemma_index_of_props(self.ids(), connection_id@);
                }
                Err(ChannelError::ChannelNotFound { id: String::from_str(connection_id) })
            },
        }
    }

    /// Drops a subscription on one channel and, while that channel is
    /// connected, returns the control frame to write.
    pub fn unsubscribe_from_consultation(&mut self, connection_id: &str, consultation_id: String) -> (r: Result<
        Option<String>,
        ChannelError,
    >)
        requires
            old(self).wf(),
        ensures
            final(self).wf(),
            match spec_index_of(old(self).ids(), connection_id@) {
                None => (r matches Err(e) && e is ChannelNotFound && final(self).entries() == old(
                    self,
                ).entries()),
                Some(k) => {
                    &&& final(self).ids() == old(self).ids()
                    &&& (forall|j: int|
                        0 <= j < old(self).entries().len() && j != k ==> final(self).client_at(
                            j,
                        ) == #[trigger] old(self).client_at(j))
                    &&& !spec_subs_contains(
                        final(self).client_at(k as int).subs(),
                        consultation_id@,
                    )
                    &&& (!spec_subs_contains(
                        old(self).client_at(k as int).subs(),
                        consultation_id@,
                    ) ==> final(self).client_at(k as int).subs() == old(self).client_at(
                        k as int,
                    ).subs())
                    &&& (r matches Ok(opt) && match opt {
                        Some(f) => old(self).client_at(k as int).status_v() is Connected && f@
                            == spec_unsubscribe_frame(consultation_id@),
                        None => !(old(self).client_at(k as int).status_v() is Connected),
                    })
                    &&& final(self).client_at(k as int).status_v() == old(self).client_at(
                        k as int,
                    ).status_v()
                    &&& final(self).client_at(k as int).queue() == old(self).client_at(
                        k as int,
                    ).queue()
                },
            },
    {
        match self.find_index(connection_id) {
            Some(k) => {
                proof {
                    lemma_index_of_props(self.ids(), connection_id@);
                }
                let (key, mut c) = self.clients.remove(k);
                proof {
                    assert(c == old(self).client_at(k as int));
                    assert(old(self).client_at(k as int).wf());
                }
                let out = c.unsubscribe_from_consultation(consultation_id);
                let ghost cl = c;
                self.clients.insert(k, (key, c));
                proof {
                    assert(self.entries()[k as int].1 == cl);
                    assert(self.ids() =~= old(self).ids());
                    assert forall|j: int|
                        0 <= j < old(self).entries().len() && j != k implies self.client_at(
                        j,
                    ) == #[trigger] old(self).client_at(j) by {
                        assert(self.entries()[j] == old(self).entries()[j]);
                    }
                    assert forall|j: int|
                        0 <= j < self.entries().len() implies (#[trigger] self.client_at(
                        j,
                    )).wf() by {
                        if j != k {
                            assert(self.client_at(j) == old(self).client_at(j));
                            assert(old(self).client_at(j).wf());
                        }
                    }
                }
                Ok(out)
            },
            None => {
                proof {
                    lemma_index_of_props(self.ids(), connection_id@);
                }
                Err(ChannelError::ChannelNotFound { id: String::from_str(connection_id) })
            },
        }
    }

    /// Starts a connect on one channel: whether an attempt actually
    /// begins (it is a no-op while connecting or connected) and the URL
    /// the handshake should dial.
    pub fn begin_connect(&mut self, connection_id: &str) -> (r: Result<(bool, String), ChannelError>)
        requires
            old(self).wf(),
        ensures
            final(self).wf(),
            match spec_index_of(old(self).ids(), connection_id@) {
                None => (r matches Err(e) && e is ChannelNotFound && final(self).entries() == old(
                    self,
                ).entries()),
                Some(k) => {
                    &&& final(self).ids() == old(self).ids()
                    &&& (forall|j: int|
                        0 <= j < old(self).entries().len() && j != k ==> final(self).client_at(
                            j,
                        ) == #[trigger] old(self).client_at(j))
                    &&& (r matches Ok((started, dial)) && dial@ == spec_connect_url(
                        old(self).client_at(k as int).url_v(),
                        old(self).client_at(k as int).token_v(),
                    ) && started == !((old(self).client_at(k as int).status_v() is Connecting)
                        || (old(self).client_at(k as int).status_v() is Connected)) && (started
                        ==> final(self).client_at(k as int).status_v() is Connecting) && (!started
                        ==> final(self).client_at(k as int).status_v() == old(self).client_at(
                        k as int,
                    ).status_v()))
                    &&& final(self).client_at(k as int).queue() == old(self).client_at(
                        k as int,
                    ).queue()
                    &&& final(self).client_at(k as int).subs() == old(self).client_at(
                        k as int,
                    ).subs()
                    &&& final(self).client_at(k as int).attempts() == old(self).client_at(
                        k as int,
                    ).attempts()
                },
            },
    {
        match self.find_index(connection_id) {
            Some(k) => {
                proof {
                    lemma_index_of_props(self.ids(), connection_id@);
                }
                let (key, mut c) = self.clients.remove(k);
                proof {
                    assert(c == old(self).client_at(k as int));
                    assert(old(self).client_at(k as int).wf());
                }
                let dial = c.connect_url();
                let started = c.begin_connect();
                let ghost cl = c;
                self.clients.insert(k, (key, c));
                proof {
                    assert(self.entries()[k as int].1 == cl);
                    assert(self.ids() =~= old(self).ids());
                    assert forall|j: int|
                        0 <= j < old(self).entries().len() && j != k implies self.client_at(
                        j,
                    ) == #[trigger] old(self).client_at(j) by {
                        assert(self.entries()[j] == old(self).entries()[j]);
                    }
                    assert forall|j: int|
                        0 <= j < self.entries().len() implies (#[trigger] self.client_at(
                        j,
                    )).wf() by {
                        if j != k {
                            assert(self.client_at(j) == old(self).client_at(j));
                            assert(old(self).client_at(j).wf());
                        }
                    }
                }
                Ok((started, dial))
            },
            None => {
                proof {
                    lemma_index_of_props(self.ids(), connection_id@);
                }
                Err(ChannelError::ChannelNotFound { id: String::from_str(connection_id) })
            },
        }
    }

    /// Records a successful handshake on one channel: it is connected
    /// and its attempt counter starts over.
    pub fn on_connect_success(&mut self, connection_id: &str) -> (r: Result<(), ChannelError>)
        requires
            old(self).wf(),
        ensures
            final(self).wf(),
            match spec_index_of(old(self).ids(), connection_id@) {
                None => (r matches Err(e) && e is ChannelNotFound && final(self).entries() == old(
                    self,
                ).entries()),
                Some(k) => {
                    &&& final(self).ids() == old(self).ids()
                    &&& (forall|j: int|
                        0 <= j < old(self).entries().len() && j != k ==> final(self).client_at(
                            j,
                        ) == #[trigger] old(self).client_at(j))
                    &&& r is Ok
                    &&& final(self).client_at(k as int).status_v() is Connected
                    &&& final(self).client_at(k as int).attempts() == 0
                    &&& final(self).client_at(k as int).queue() == old(self).client_at(
                        k as int,
                    ).queue()
                    &&& final(self).client_at(k as int).subs() == old(self).client_at(
                        k as int,
                    ).subs()
                },
            },
    {
        match self.find_index(connection_id) {
            Some(k) => {
                proof {
                    lemma_index_of_props(self.ids(), connection_id@);
                }
                let (key, mut c) = self.clients.remove(k);
                proof {
                    assert(c == old(self).client_at(k as int));
                    assert(old(self).client_at(k as int).wf());
                }
                c.on_connect_success();
                let ghost cl = c;
                self.clients.insert(k, (key, c));
                proof {
                    assert(self.entries()[k as int].1 == cl);
                    assert(self.ids() =~= old(self).ids());
                    assert forall|j: int|
                        0 <= j < old(self).entries().len() && j != k implies self.client_at(
                        j,
                    ) == #[trigger] old(self).client_at(j) by {
                        assert(self.entries()[j] == old(self).entries()[j]);
                    }
                    assert forall|j: int|
                        0 <= j < self.entries().len() implies (#[trigger] self.client_at(
                        j,
                    )).wf() by {
                        if j != k {
                            assert(self.client_at(j) == old(self).client_at(j));
                            assert(old(self).client_at(j).wf());
                        }
                    }
                }
                Ok(())
            },
            None => {
                proof {
                    lemma_index_of_props(self.ids(), connection_id@);
                }
                Err(ChannelError::ChannelNotFound { id: String::from_str(connection_id) })
            },
        }
    }

    /// Records a failed handshake on one channel: it surfaces the
    /// transport's reason as a stable error state, and hands back the
    /// `ConnectionError` the opener propagates to its caller.
    pub fn on_connect_failure(&mut self, connection_id: &str, reason: String) -> (r: Result<
        ChannelError,
        ChannelError,
    >)
        requires
            old(self).wf(),
        ensures
            final(self).wf(),
            match spec_index_of(old(self).ids(), connection_id@) {
                None => (r matches Err(e) && e is ChannelNotFound && final(self).entries() == old(
                    self,
                ).entries()),
                Some(k) => {
                    &&& final(self).ids() == old(self).ids()
                    &&& (forall|j: int|
                        0 <= j < old(self).entries().len() && j != k ==> final(self).client_at(
                            j,
                        ) == #[trigger] old(self).client_at(j))
                    &&& r is Ok
                    &&& final(self).client_at(k as int).status_v() == StatusV::Error(
                        "WebSocket connection failed: "@ + reason@,
                    )
                    &&& final(self).client_at(k as int).queue() == old(self).client_at(
                        k as int,
                    ).queue()
                    &&& final(self).client_at(k as int).subs() == old(self).client_at(
                        k as int,
                    ).subs()
                    &&& final(self).client_at(k as int).attempts() == old(self).client_at(
                        k as int,
                    ).attempts()
                },
            },
    {
        match self.find_index(connection_id) {
            Some(k) => {
                proof {
                    lemma_index_of_props(self.ids(), connection_id@);
                }
                let (key, mut c) = self.clients.remove(k);
                proof {
                    assert(c == old(self).client_at(k as int));
                    assert(old(self).client_at(k as int).wf());
                }
                let reported = c.on_connect_failure(reason);
                let ghost cl = c;
                self.clients.insert(k, (key, c));
                proof {
                    assert(self.entries()[k as int].1 == cl);
                    assert(self.ids() =~= old(self).ids());
                    assert forall|j: int|
                        0 <= j < old(self).entries().len() && j != k implies self.client_at(
                        j,
                    ) == #[trigger] old(self).client_at(j) by {
                        assert(self.entries()[j] == old(self).entries()[j]);
                    }
                    assert forall|j: int|
                        0 <= j < self.entries().len() implies (#[trigger] self.client_at(
                        j,
                    )).wf() by {
                        if j != k {
                            assert(self.client_at(j) == old(self).client_at(j));
                            assert(old(self).client_at(j).wf());
                        }
                    }
                }
                Ok(reported)
            },
            None => {
                proof {
                    lemma_index_of_props(self.ids(), connection_id@);
                }
                Err(ChannelError::ChannelNotFound { id: String::from_str(connection_id) })
            },
        }
    }

    /// Plans a reconnect for one channel after its session dropped:
    /// either a back-off delay to sleep before retrying, or the
    /// terminal decision to give up.
    pub fn plan_reconnect(&mut self, connection_id: &str) -> (r: Result<ReconnectDecision, ChannelError>)
        requires
            old(self).wf(),
        ensures
            final(self).wf(),
            match spec_index_of(old(self).ids(), connection_id@) {
                None => (r matches Err(e) && e is ChannelNotFound && final(self).entries() == old(
                    self,
                ).entries()),
                Some(k) => {
                    &&& final(self).ids() == old(self).ids()
                    &&& (forall|j: int|
                        0 <= j < old(self).entries().len() && j != k ==> final(self).client_at(
                            j,
                        ) == #[trigger] old(self).client_at(j))
                    &&& (old(self).client_at(k as int).attempts() <= old(self).client_at(
                        k as int,
                    ).max_attempts() ==> final(self).client_at(k as int).attempts() == old(
                        self,
                    ).client_at(k as int).attempts() + 1)
                    &&& (old(self).client_at(k as int).attempts() > old(self).client_at(
                        k as int,
                    ).max_attempts() ==> final(self).client_at(k as int).attempts() == old(
                        self,
                    ).client_at(k as int).attempts())
                    &&& r is Ok
                    &&& ((r->Ok_0 is RetryAfter) <==> (final(self).client_at(k as int).attempts()
                        <= final(self).client_at(k as int).max_attempts()))
                    &&& ((r->Ok_0 is RetryAfter) ==> (r->Ok_0->RetryAfter_0 == final(self).client_at(k as int).delay_ms() * (final(self).client_at(
                        k as int,
                    ).attempts() as u64) && final(self).client_at(
                        k as int,
                    ).status_v() is Reconnecting))
                    &&& ((r->Ok_0 is GiveUp) ==> final(self).client_at(
                        k as int,
                    ).status_v() is Error)
                    &&& final(self).client_at(k as int).queue() == old(self).client_at(
                        k as int,
                    ).queue()
                    &&& final(self).client_at(k as int).subs() == old(self).client_at(
                        k as int,
                    ).subs()
                },
            },
    {
        match self.find_index(connection_id) {
            Some(k) => {
                proof {
                    lemma_index_of_props(self.ids(), connection_id@);
                }
                let (key, mut c) = self.clients.remove(k);
                proof {
                    assert(c == old(self).client_at(k as int));
                    assert(old(self).client_at(k as int).wf());
                }
                let out = c.plan_reconnect();
                let ghost cl = c;
                self.clients.insert(k, (key, c));
                proof {
                    assert(self.entries()[k as int].1 == cl);
                    assert(self.ids() =~= old(self).ids());
                    assert forall|j: int|
                        0 <= j < old(self).entries().len() && j != k implies self.client_at(
                        j,
                    ) == #[trigger] old(self).client_at(j) by {
                        assert(self.entries()[j] == old(self).entries()[j]);
                    }
                    assert forall|j: int|
                        0 <= j < self.entries().len() implies (#[trigger] self.client_at(
                        j,
                    )).wf() by {
                        if j != k {
                            assert(self.client_at(j) == old(self).client_at(j));
                            assert(old(self).client_at(j).wf());
                        }
                    }
                }
                Ok(out)
            },
            None => {
                proof {
                    lemma_index_of_props(self.ids(), connection_id@);
                }
                Err(ChannelError::ChannelNotFound { id: String::from_str(connection_id) })
            },
        }
    }

    /// Confirms the delivery of one channel's oldest queued message:
    /// `true` when a message left the queue, `false` when the queue was
    /// already empty.
    pub fn mark_head_delivered(&mut self, connection_id: &str) -> (r: Result<bool, ChannelError>)
        requires
            old(self).wf(),
        ensures
            final(self).wf(),
            match spec_index_of(old(self).ids(), connection_id@) {
                None => (r matches Err(e) && e is ChannelNotFound && final(self).entries() == old(
                    self,
                ).entries()),
                Some(k) => {
                    &&& final(self).ids() == old(self).ids()
                    &&& (forall|j: int|
                        0 <= j < old(self).entries().len() && j != k ==> final(self).client_at(
                            j,
                        ) == #[trigger] old(self).client_at(j))
                    &&& (old(self).client_at(k as int).queue().len() > 0 ==> (r matches Ok(b)
                        && b && final(self).client_at(k as int).queue() == old(self).client_at(
                        k as int,
                    ).queue().drop_first()))
                    &&& (old(self).client_at(k as int).queue().len() == 0 ==> (r matches Ok(b)
                        && !b && final(self).client_at(k as int).queue() == old(self).client_at(
                        k as int,
                    ).queue()))
                    &&& final(self).client_at(k as int).status_v() == old(self).client_at(
                        k as int,
                    ).status_v()
                    &&& final(self).client_at(k as int).subs() == old(self).client_at(
                        k as int,
                    ).subs()
                },
            },
    {
        match self.find_index(connection_id) {
            Some(k) => {
                proof {
                    lemma_index_of_props(self.ids(), connection_id@);
                }
                let (key, mut c) = self.clients.remove(k);
                proof {
                    assert(c == old(self).client_at(k as int));
                    assert(old(self).client_at(k as int).wf());
                }
                let popped: bool = if c.get_queued_message_count() > 0 {
                    c.mark_head_delivered();
                    true
                } else {
                    false
                };
                let ghost cl = c;
                self.clients.insert(k, (key, c));
                proof {
                    assert(self.entries()[k as int].1 == cl);
                    assert(self.ids() =~= old(self).ids());
                    assert forall|j: int|
                        0 <= j < old(self).entries().len() && j != k implies self.client_at(
                        j,
                    ) == #[trigger] old(self).client_at(j) by {
                        assert(self.entries()[j] == old(self).entries()[j]);
                    }
                    assert forall|j: int|
                        0 <= j < self.entries().len() implies (#[trigger] self.client_at(
                        j,
                    )).wf() by {
                        if j != k {
                            assert(self.client_at(j) == old(self).client_at(j));
                            assert(old(self).client_at(j).wf());
                        }
                    }
                }
                Ok(popped)
            },
            None => {
                proof {
                    lemma_index_of_props(self.ids(), connection_id@);
                }
                Err(ChannelError::ChannelNotFound { id: String::from_str(connection_id) })
            },
        }
    }

    /// Flushes one channel's queue while it is connected: the frames
    /// come back in exactly the order the messages were queued and the
    /// queue empties; offline nothing is delivered and nothing is lost.
    pub fn process_message_queue(&mut self, connection_id: &str) -> (r: Result<Vec<String>, ChannelError>)
        requires
            old(self).wf(),
        ensures
            final(self).wf(),
            match spec_index_of(old(self).ids(), connection_id@) {
                None => (r matches Err(e) && e is ChannelNotFound && final(self).entries() == old(
                    self,
                ).entries()),
                Some(k) => {
                    &&& final(self).ids() == old(self).ids()
                    &&& (forall|j: int|
                        0 <= j < old(self).entries().len() && j != k ==> final(self).client_at(
                            j,
                        ) == #[trigger] old(self).client_at(j))
                    &&& (old(self).client_at(k as int).status_v() is Connected ==> (
                    r matches Ok(frames) && frames@.len() == old(self).client_at(
                        k as int,
                    ).queue().len() && (forall|i: int|
                        0 <= i < frames@.len() ==> #[trigger] frames@[i]@ == spec_message_frame(
                            old(self).client_at(k as int).queue()[i],
                        )) && final(self).client_at(k as int).queue()
                        == Seq::<QueuedMessage>::empty()))
                    &&& (!(old(self).client_at(k as int).status_v() is Connected) ==> (
                    r matches Err(e) && e is NotConnected && final(self).client_at(
                        k as int,
                    ).queue() == old(self).client_at(k as int).queue()))
                    &&& final(self).client_at(k as int).status_v() == old(self).client_at(
                        k as int,
                    ).status_v()
                    &&& final(self).client_at(k as int).subs() == old(self).client_at(
                        k as int,
                    ).subs()
                },
            },
    {
        match self.find_index(connection_id) {
            Some(k) => {
                proof {
                    lemma_index_of_props(self.ids(), connection_id@);
                }
                let (key, mut c) = self.clients.remove(k);
                proof {
                    assert(c == old(self).client_at(k as int));
                    assert(old(self).client_at(k as int).wf());
                }
                let out = c.process_message_queue();
                let ghost cl = c;
                self.clients.insert(k, (key, c));
                proof {
                    assert(self.entries()[k as int].1 == cl);
                    assert(self.ids() =~= old(self).ids());
                    assert forall|j: int|
                        0 <= j < old(self).entries().len() && j != k implies self.client_at(
                        j,
                    ) == #[trigger] old(self).client_at(j) by {
                        assert(self.entries()[j] == old(self).entries()[j]);
                    }
                    assert forall|j: int|
                        0 <= j < self.entries().len() implies (#[trigger] self.client_at(
                        j,
                    )).wf() by {
                        if j != k {
                            assert(self.client_at(j) == old(self).client_at(j));
                            assert(old(self).client_at(j).wf());
                        }
                    }
                }
                out
            },
            None => {
                proof {
                    lemma_index_of_props(self.ids(), connection_id@);
                }
                Err(ChannelError::ChannelNotFound { id: String::from_str(connection_id) })
            },
        }
    }

    /// The read-receipt frame for one channel, available only while it
    /// is connected; best effort, never queued.
    pub fn send_read_receipt(&self, connection_id: &str, consultation_id: &str, message_id: &str) -> (r: Result<
        Option<String>,
        ChannelError,
    >)
        ensures
            match spec_index_of(self.ids(), connection_id@) {
                None => r matches Err(e) && e is ChannelNotFound,
                Some(k) => r matches Ok(opt) && match opt {
                    Some(f) => self.client_at(k as int).status_v() is Connected && f@
                        == spec_read_receipt_frame(consultation_id@, message_id@),
                    None => !(self.client_at(k as int).status_v() is Connected),
                },
            },
    {
        match self.find_index(connection_id) {
            Some(k) => Ok(self.clients[k].1.send_read_receipt(consultation_id, message_id)),
            None => Err(ChannelError::ChannelNotFound { id: String::from_str(connection_id) }),
        }
    }

    /// The typing-status frame for one channel, available only while it
    /// is connected; best effort, never queued.
    pub fn send_typing_status(&self, connection_id: &str, consultation_id: &str, is_typing: bool) -> (r: Result<
        Option<String>,
        ChannelError,
    >)
        ensures
            match spec_index_of(self.ids(), connection_id@) {
                None => r matches Err(e) && e is ChannelNotFound,
                Some(k) => r matches Ok(opt) && match opt {
                    Some(f) => self.client_at(k as int).status_v() is Connected && f@
                        == spec_typing_frame(consultation_id@, is_typing),
                    None => !(self.client_at(k as int).status_v() is Connected),
                },
            },
    {
        match self.find_index(connection_id) {
            Some(k) => Ok(self.clients[k].1.send_typing_status(consultation_id, is_typing)),
            None => Err(ChannelError::ChannelNotFound { id: String::from_str(connection_id) }),
        }
    }

    /// The frame for one channel's oldest queued message, available
    /// exactly while that channel is connected and has messages queued.
    pub fn next_frame(&self, connection_id: &str) -> (r: Result<Option<String>, ChannelError>)
        ensures
            match spec_index_of(self.ids(), connection_id@) {
                None => r matches Err(e) && e is ChannelNotFound,
                Some(k) => r matches Ok(opt) && match opt {
                    Some(f) => self.client_at(k as int).status_v() is Connected && self.client_at(
                        k as int,
                    ).queue().len() > 0 && f@ == spec_message_frame(
                        self.client_at(k as int).queue()[0],
                    ),
                    None => !(self.client_at(k as int).status_v() is Connected)
                        || self.client_at(k as int).queue().len() == 0,
                },
            },
    {
        match self.find_index(connection_id) {
            Some(k) => Ok(self.clients[k].1.next_frame()),
            None => Err(ChannelError::ChannelNotFound { id: String::from_str(connection_id) }),
        }
    }

    /// How many messages wait in one channel's queue.
    pub fn get_queued_message_count(&self, connection_id: &str) -> (r: Result<usize, ChannelError>)
        ensures
            match spec_index_of(self.ids(), connection_id@) {
                None => r matches Err(e) && e is ChannelNotFound,
                Some(k) => r matches Ok(n) && n == self.client_at(k as int).queue().len(),
            },
    {
        match self.find_index(connection_id) {
            Some(k) => Ok(self.clients[k].1.get_queued_message_count()),
            None => Err(ChannelError::ChannelNotFound { id: String::from_str(connection_id) }),
        }
    }

    /// Every channel's status, each under its identifier, in
    /// registration order.
    pub fn get_all_connection_status(&self) -> (r: Vec<(String, ConnectionStatus)>)
        ensures
            r@.len() == self.entries().len(),
            forall|k: int|
                0 <= k < r@.len() ==> (#[trigger] r@[k]).0@ == self.ids()[k] && r@[k].1@
                    == self.client_at(k).status_v(),
    {
        let n = self.clients.len();
        let mut out: Vec<(String, ConnectionStatus)> = Vec::new();
        let mut i: usize = 0;
        while i < n
            invariant
                n == self.entries().len(),
                0 <= i <= n,
                out@.len() == i,
                forall|k: int|
                    0 <= k < i ==> (#[trigger] out@[k]).0@ == self.ids()[k] && out@[k].1@
                        == self.client_at(k).status_v(),
            decreases n - i,
        {
            let id = self.clients[i].0.clone();
            let st = self.clients[i].1.get_connection_status();
            out.push((id, st));
            i = i + 1;
        }
        out
    }
}

proof fn lemma_index_of_first(ids: Seq<Seq<char>>, id: Seq<char>)
    requires
        unique_views(ids),
        exists|j: int| 0 <= j < ids.len() && ids[j] == id,
    ensures
        spec_index_of(ids, id) matches Some(k) && ids[k as int] == id,
{
    lemma_index_of_props(ids, id);
    if spec_index_of(ids, id) is None {
        let j = choose|j: int| 0 <= j < ids.len() && ids[j] == id;
        assert(ids[j] != id);
    }
}

} // verus!
