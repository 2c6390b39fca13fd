//! One real-time channel: connection state machine, offline queue and
//! reconnect policy.
//!
//! A [`WebSocketClient`] owns no socket; it is the decision core of a
//! channel.  The hosting layer performs the handshake, writes frames
//! and sleeps out back-off delays, and reports each outcome back
//! through the transition methods here, whose contracts pin down every
//! state change:
//!
//! - a send while the channel is not connected queues the message and
//!   never loses it;
//! - the queue is flushed strictly in first-in-first-out order;
//! - the attempt counter moves by exactly one per failed reconnect and
//!   resets on success, and once it passes the limit the channel is in
//!   a terminal error state with no further retry planned.

use vstd::prelude::*;

use crate::codec::{jstr, push_json_string, spec_subscribe_frame, spec_unsubscribe_frame};
use crate::errors::ChannelError;
use crate::models::{spec_message_type_str, MessageType};
use crate::numfmt::{push_i64, push_u64, spec_decimal, spec_decimal_int};
use vstd::string::StringExecFns;

verus! {

/// The lifecycle state of a channel.
#[derive(Debug)]
pub enum ConnectionStatus {
    Disconnected,
    Connecting,
    Connected,
    Reconnecting,
    Error(String),
}

/// Spec image of a status; the error text as a character sequence.
pub ghost enum StatusV {
    Disconnected,
    Connecting,
    Connected,
    Reconnecting,
    Error(Seq<char>),
}

impl View for ConnectionStatus {
    type V = StatusV;

    open spec fn view(&self) -> StatusV {
        match self {
            ConnectionStatus::Disconnected => StatusV::Disconnected,
            ConnectionStatus::Connecting => StatusV::Connecting,
            ConnectionStatus::Connected => StatusV::Connected,
            ConnectionStatus::Reconnecting => StatusV::Reconnecting,
            ConnectionStatus::Error(m) => StatusV::Error(m@),
        }
    }
}

/// Every status value is one of the five declared states: the machine
/// has no undefined or partial state.
pub proof fn lemma_status_one_of_five(s: StatusV)
    ensures
        s is Disconnected || s is Connecting || s is Connected || s is Reconnecting
            || s is Error,
{
    match s {
        StatusV::Disconnected => {},
        StatusV::Connecting => {},
        StatusV::Connected => {},
        StatusV::Reconnecting => {},
        StatusV::Error(_) => {},
    }
}

pub fn clone_status(s: &ConnectionStatus) -> (r: ConnectionStatus)
    ensures
        r@ == s@,
{
    match s {
        ConnectionStatus::Disconnected => ConnectionStatus::Disconnected,
        ConnectionStatus::Connecting => ConnectionStatus::Connecting,
        ConnectionStatus::Connected => ConnectionStatus::Connected,
        ConnectionStatus::Reconnecting => ConnectionStatus::Reconnecting,
        ConnectionStatus::Error(m) => ConnectionStatus::Error(m.clone()),
    }
}

/// A message waiting for delivery.
#[derive(Debug)]
pub struct QueuedMessage {
    pub id: String,
    pub consultation_id: String,
    pub message_type: MessageType,
    pub content: String,
    pub file_path: Option<String>,
    pub retry_count: u32,
    pub created_at: i64,
}

/// The application frame a queued message is sent as.
pub open spec fn spec_message_frame(m: QueuedMessage) -> Seq<char> {
    "{\"type\":\"message\",\"consultation_id\":"@ + jstr(m.consultation_id@)
        + ",\"message\":{\"id\":"@ + jstr(m.id@) + ",\"consultationId\":"@ + jstr(
        m.consultation_id@,
    ) + ",\"senderType\":\"doctor\",\"messageType\":"@ + jstr(spec_message_type_str(m.message_type))
        + ",\"content\":"@ + jstr(m.content@) + ",\"filePath\":"@ + (match m.file_path {
        Some(p) => jstr(p@),
        None => "null"@,
    }) + ",\"timestamp\":"@ + spec_decimal_int(m.created_at as int)
        + ",\"syncStatus\":\"pending\",\"readStatus\":\"unread\"}}"@
}

/// Encodes the application frame for one message.
pub fn encode_message(m: &QueuedMessage) -> (r: String)
    ensures
        r@ == spec_message_frame(*m),
{
    let mut out = String::from_str("{\"type\":\"message\",\"consultation_id\":");
    push_json_string(&mut out, m.consultation_id.as_str());
    out.append(",\"message\":{\"id\":");
    push_json_string(&mut out, m.id.as_str());
    out.append(",\"consultationId\":");
    push_json_string(&mut out, m.consultation_id.as_str());
    out.append(",\"senderType\":\"doctor\",\"messageType\":");
    push_json_string(&mut out, m.message_type.as_str());
    out.append(",\"content\":");
    push_json_string(&mut out, m.content.as_str());
    out.append(",\"filePath\":");
    match &m.file_path {
        Some(p) => {
            push_json_string(&mut out, p.as_str());
        },
        None => {
            out.append("null");
        },
    }
    out.append(",\"timestamp\":");
    push_i64(&mut out, m.created_at);
    out.append(",\"syncStatus\":\"pending\",\"readStatus\":\"unread\"}}");
    proof {
        assert(out@ =~= spec_message_frame(*m));
    }
    out
}

/// The views of the subscription entries.
pub open spec fn subs_views(subs: Seq<String>) -> Seq<Seq<char>> {
    subs.map_values(|s: String| s@)
}

/// No consultation id occurs twice.
pub open spec fn unique_views(views: Seq<Seq<char>>) -> bool {
    forall|i: int, j: int|
        0 <= i < j < views.len() ==> (#[trigger] views[i]) != (#[trigger] views[j])
}

/// Membership of a consultation id in a subscription list.
pub open spec fn spec_subs_contains(views: Seq<Seq<char>>, cid: Seq<char>) -> bool {
    exists|i: int| 0 <= i < views.len() && views[i] == cid
}

/// Set-like insertion: already-present ids leave the list unchanged.
pub open spec fn spec_sub_insert(views: Seq<Seq<char>>, cid: Seq<char>) -> Seq<Seq<char>> {
    if spec_subs_contains(views, cid) {
        views
    } else {
        views.push(cid)
    }
}

/// Subscribing twice to the same consultation is the same as
/// subscribing once: the second insertion changes nothing.
pub proof fn lemma_subscribe_idempotent(views: Seq<Seq<char>>, cid: Seq<char>)
    ensures
        spec_sub_insert(spec_sub_insert(views, cid), cid) == spec_sub_insert(views, cid),
{
    if !spec_subs_contains(views, cid) {
        let v2 = views.push(cid);
        assert(v2[views.len() as int] == cid);
        assert(spec_subs_contains(v2, cid));
    }
}

/// How the attempt counter evolves over `k` consecutive failed
/// reconnects: one step per failure while the limit is not yet passed.
pub open spec fn spec_attempts_after(k: nat, max: nat) -> nat
    decreases k,
{
    if k == 0 {
        0
    } else {
        let prev = spec_attempts_after((k - 1) as nat, max);
        if prev <= max {
            prev + 1
        } else {
            prev
        }
    }
}

/// After at most `max + 1` consecutive failures the counter sticks:
/// exactly `max` retries are ever planned, and from then on the channel
/// stays in its terminal state with no further automatic reconnect.
pub proof fn lemma_max_retries(k: nat, max: nat)
    ensures
        k <= max + 1 ==> spec_attempts_after(k, max) == k,
        k > max + 1 ==> spec_attempts_after(k, max) == max + 1,
    decreases k,
{
    if k > 0 {
        lemma_max_retries((k - 1) as nat, max);
    }
}

/// The queue after the first `k` messages have each been confirmed
/// delivered, one at a time.
pub open spec fn spec_deliver(q: Seq<QueuedMessage>, k: nat) -> Seq<QueuedMessage>
    decreases k,
{
    if k == 0 {
        q
    } else {
        spec_deliver(q, (k - 1) as nat).drop_first()
    }
}

/// Queued messages go out strictly first-in-first-out: confirming the
/// first `k` deliveries leaves exactly the messages `k..n`, untouched
/// and in their original order — a failure after `k` deliveries cannot
/// reorder or drop what remains.
pub proof fn lemma_flush_order(q: Seq<QueuedMessage>, k: nat)
    requires
        k <= q.len(),
    ensures
        spec_deliver(q, k) == q.skip(k as int),
        spec_deliver(q, k).len() == q.len() - k,
        forall|i: int| 0 <= i < q.len() - k ==> #[trigger] spec_deliver(q, k)[i] == q[k + i],
    decreases k,
{
    if k == 0 {
        assert(spec_deliver(q, 0) =~= q.skip(0));
    } else {
        lemma_flush_order(q, (k - 1) as nat);
        assert(q.skip(k - 1).drop_first() =~= q.skip(k as int));
    }
}

/// What the channel decides after a session drop: wait and retry, or
/// give up for good.
#[derive(Clone, Copy, Debug, PartialEq, Eq, Structural)]
pub enum ReconnectDecision {
    RetryAfter(u64),
    GiveUp,
}

/// The decision core of one channel.
pub struct WebSocketClient {
    url: String,
    auth_token: Option<String>,
    status: ConnectionStatus,
    subscriptions: Vec<String>,
    message_queue: Vec<QueuedMessage>,
    reconnect_attempts: u32,
    max_reconnect_attempts: u32,
    reconnect_delay_ms: u64,
}

impl WebSocketClient {
    pub closed spec fn status_v(&self) -> StatusV {
        self.status@
    }

    pub closed spec fn queue(&self) -> Seq<QueuedMessage> {
        self.message_queue@
    }

    pub closed spec fn subs(&self) -> Seq<Seq<char>> {
        subs_views(self.subscriptions@)
    }

    pub closed spec fn attempts(&self) -> u32 {
        self.reconnect_attempts
    }

    pub closed spec fn max_attempts(&self) -> u32 {
        self.max_reconnect_attempts
    }

    pub closed spec fn delay_ms(&self) -> u64 {
        self.reconnect_delay_ms
    }

    pub closed spec fn url_v(&self) -> Seq<char> {
        self.url@
    }

    pub closed spec fn token_v(&self) -> Option<Seq<char>> {
        match self.auth_token {
            Some(t) => Some(t@),
            None => None,
        }
    }

    /// Structural invariant: no duplicate subscriptions, and bounds
    /// that keep the back-off arithmetic inside `u64`.
    pub open spec fn wf(&self) -> bool {
        &&& unique_views(self.subs())
        &&& self.attempts() <= self.max_attempts() + 1
        &&& self.max_attempts() <= 0xFFFF
        &&& self.delay_ms() <= 60000
    }

    /// A fresh channel: disconnected, empty queue, no subscriptions,
    /// the default retry limit of five and a two-second base delay.
    pub fn new(url: String) -> (r: WebSocketClient)
        ensures
            r.wf(),
            r.url_v() == url@,
            r.token_v() is None,
            r.status_v() is Disconnected,
            r.queue() == Seq::<QueuedMessage>::empty(),
            r.subs() == Seq::<Seq<char>>::empty(),
            r.attempts() == 0,
            r.max_attempts() == 5,
            r.delay_ms() == 2000,
    {
        let r = WebSocketClient {
            url,
            auth_token: None,
            status: ConnectionStatus::Disconnected,
            subscriptions: Vec::new(),
            message_queue: Vec::new(),
            reconnect_attempts: 0,
            max_reconnect_attempts: 5,
            reconnect_delay_ms: 2000,
        };
        proof {
            assert(r.subs() =~= Seq::<Seq<char>>::empty());
        }
        r
    }

    pub fn set_auth_token(&mut self, token: String)
        requires
            old(self).wf(),
        ensures
            final(self).wf(),
            final(self).token_v() == Some(token@),
            final(self).status_v() == old(self).status_v(),
            final(self).queue() == old(self).queue(),
            final(self).subs() == old(self).subs(),
            final(self).attempts() == old(self).attempts(),
            final(self).max_attempts() == old(self).max_attempts(),
            final(self).delay_ms() == old(self).delay_ms(),
            final(self).url_v() == old(self).url_v(),
    {
        self.auth_token = Some(token);
    }

    pub fn get_connection_status(&self) -> (r: ConnectionStatus)
        ensures
            r@ == self.status_v(),
    {
        clone_status(&self.status)
    }

    /// The URL the handshake should dial: the channel's endpoint with
    /// the auth token appended as a query parameter when one is set.
    pub fn connect_url(&self) -> (r: String)
        ensures
            r@ == spec_connect_url(self.url_v(), self.token_v()),
    {
        match &self.auth_token {
            None => {
                let r = self.url.clone();
                r
            },
            Some(token) => {
                let cs = crate::strutil::chars_vec(self.url.as_str());
                let n = cs.len();
                let mut has_query = false;
                let mut i: usize = 0;
                while i < n
                    invariant
                        cs@ == self.url@,
                        n == cs@.len(),
                        0 <= i <= n,
                        has_query == exists|j: int| 0 <= j < i && cs@[j] == '?',
                    decreases n - i,
                {
                    if cs[i] == '?' {
                        has_query = true;
                        proof {
                            assert(cs@[i as int] == '?');
                        }
                    }
                    i = i + 1;
                }
                let mut out = self.url.clone();
                if has_query {
                    out.push('&');
                } else {
                    out.push('?');
                }
                out.append("token=");
                out.append(token.as_str());
                proof {
                    assert(out@ =~= spec_connect_url(self.url_v(), self.token_v()));
                }
                out
            },
        }
    }

    /// Starts a connection attempt.  A no-op returning `false` while
    /// already connecting or connected; otherwise the channel moves to
    /// `Connecting` and the caller performs the handshake.
    pub fn begin_connect(&mut self) -> (r: bool)
        requires
            old(self).wf(),
        ensures
            final(self).wf(),
            r == !(old(self).status_v() is Connecting || old(self).status_v() is Connected),
            r ==> final(self).status_v() is Connecting,
            !r ==> final(self).status_v() == old(self).status_v(),
            final(self).queue() == old(self).queue(),
            final(self).subs() == old(self).subs(),
            final(self).attempts() == old(self).attempts(),
            final(self).max_attempts() == old(self).max_attempts(),
            final(self).delay_ms() == old(self).delay_ms(),
            final(self).url_v() == old(self).url_v(),
            final(self).token_v() == old(self).token_v(),
    {
        match self.status {
            ConnectionStatus::Connecting => false,
            ConnectionStatus::Connected => false,
            _ => {
                self.status = ConnectionStatus::Connecting;
                true
            },
        }
    }

    /// Records a successful handshake: the channel is connected and the
    /// attempt counter starts over.
    pub fn on_connect_success(&mut self)
        requires
            old(self).wf(),
        ensures
            final(self).wf(),
            final(self).status_v() is Connected,
            final(self).attempts() == 0,
            final(self).queue() == old(self).queue(),
            final(self).subs() == old(self).subs(),
            final(self).max_attempts() == old(self).max_attempts(),
            final(self).delay_ms() == old(self).delay_ms(),
            final(self).url_v() == old(self).url_v(),
            final(self).token_v() == old(self).token_v(),
    {
        self.status = ConnectionStatus::Connected;
        self.reconnect_attempts = 0;
    }

    /// Records a failed handshake: the channel surfaces the transport's
    /// reason both in a stable `Error` state and as the error value the
    /// caller of the connect propagates.  Nothing queued is touched.
    pub fn on_connect_failure(&mut self, reason: String) -> (r: ChannelError)
        requires
            old(self).wf(),
        ensures
            final(self).wf(),
            r matches ChannelError::ConnectionError { message } && message@
                == "WebSocket connection failed: "@ + reason@,
            final(self).status_v() == StatusV::Error(
                "WebSocket connection failed: "@ + reason@,
            ),
            final(self).queue() == old(self).queue(),
            final(self).subs() == old(self).subs(),
            final(self).attempts() == old(self).attempts(),
            final(self).max_attempts() == old(self).max_attempts(),
            final(self).delay_ms() == old(self).delay_ms(),
            final(self).url_v() == old(self).url_v(),
            final(self).token_v() == old(self).token_v(),
    {
        let mut m = String::from_str("WebSocket connection failed: ");
        m.append(reason.as_str());
        let reported = m.clone();
        self.status = ConnectionStatus::Error(m);
        ChannelError::ConnectionError { message: reported }
    }

    /// Releases the session: the channel is disconnected until an
    /// explicit reconnect.
    pub fn disconnect(&mut self)
        requires
            old(self).wf(),
        ensures
            final(self).wf(),
            final(self).status_v() is Disconnected,
            final(self).queue() == old(self).queue(),
            final(self).subs() == old(self).subs(),
            final(self).attempts() == old(self).attempts(),
            final(self).max_attempts() == old(self).max_attempts(),
            final(self).delay_ms() == old(self).delay_ms(),
            final(self).url_v() == old(self).url_v(),
            final(self).token_v() == old(self).token_v(),
    {
        self.status = ConnectionStatus::Disconnected;
    }

    /// Sends one message.  Connected: the encoded frame comes back for
    /// the wire and the state is untouched.  Not connected: the message
    /// goes to the back of the queue — it is never lost — and the
    /// caller learns it was queued.
    pub fn send_message(&mut self, message: QueuedMessage) -> (r: Result<String, ChannelError>)
        requires
            old(self).wf(),
        ensures
            final(self).wf(),
            old(self).status_v() is Connected ==> (r matches Ok(f) && f@ == spec_message_frame(
                message,
            ) && final(self).queue() == old(self).queue()),
            !(old(self).status_v() is Connected) ==> (r matches Err(e) && e is NotConnected
                && final(self).queue() == old(self).queue().push(message)),
            final(self).status_v() == old(self).status_v(),
            final(self).subs() == old(self).subs(),
            final(self).attempts() == old(self).attempts(),
            final(self).max_attempts() == old(self).max_attempts(),
            final(self).delay_ms() == old(self).delay_ms(),
            final(self).url_v() == old(self).url_v(),
            final(self).token_v() == old(self).token_v(),
    {
        match self.status {
            ConnectionStatus::Connected => Ok(encode_message(&message)),
            _ => {
                self.message_queue.push(message);
                Err(ChannelError::NotConnected)
            },
        }
    }

    /// The frame for the oldest queued message, available exactly while
    /// the channel is connected and the queue is not empty.  The queue
    /// itself is untouched until the delivery is confirmed.
    pub fn next_frame(&self) -> (r: Option<String>)
        ensures
            match r {
                Some(f) => self.status_v() is Connected && self.queue().len() > 0 && f@
                    == spec_message_frame(self.queue()[0]),
                None => !(self.status_v() is Connected) || self.queue().len() == 0,
            },
    {
        match self.status {
            ConnectionStatus::Connected => {
                if self.message_queue.len() > 0 {
                    let m = &self.message_queue[0];
                    Some(encode_message(m))
                } else {
                    None
                }
            },
            _ => None,
        }
    }

    /// Confirms that the oldest queued message went out: it leaves the
    /// queue, and every later message stays, in order.
    pub fn mark_head_delivered(&mut self)
        requires
            old(self).wf(),
            old(self).queue().len() > 0,
        ensures
            final(self).wf(),
            final(self).queue() == old(self).queue().drop_first(),
            final(self).status_v() == old(self).status_v(),
            final(self).subs() == old(self).subs(),
            final(self).attempts() == old(self).attempts(),
            final(self).max_attempts() == old(self).max_attempts(),
            final(self).delay_ms() == old(self).delay_ms(),
            final(self).url_v() == old(self).url_v(),
            final(self).token_v() == old(self).token_v(),
    {
        self.message_queue.remove(0);
        proof {
            assert(self.message_queue@ =~= old(self).queue().drop_first());
        }
    }

    /// Flushes the whole queue while connected: the frames come back in
    /// exactly the order the messages were queued and the queue
    /// empties.  Not connected: nothing is delivered, nothing is lost.
    pub fn process_message_queue(&mut self) -> (r: Result<Vec<String>, ChannelError>)
        requires
            old(self).wf(),
        ensures
            final(self).wf(),
            old(self).status_v() is Connected ==> (r matches Ok(frames) && frames@.len() == old(
                self,
            ).queue().len() && (forall|i: int|
                0 <= i < frames@.len() ==> #[trigger] frames@[i]@ == spec_message_frame(
                    old(self).queue()[i],
                )) && final(self).queue() == Seq::<QueuedMessage>::empty()),
            !(old(self).status_v() is Connected) ==> (r matches Err(e) && e is NotConnected
                && final(self).queue() == old(self).queue()),
            final(self).status_v() == old(self).status_v(),
            final(self).subs() == old(self).subs(),
            final(self).attempts() == old(self).attempts(),
            final(self).max_attempts() == old(self).max_attempts(),
            final(self).delay_ms() == old(self).delay_ms(),
            final(self).url_v() == old(self).url_v(),
            final(self).token_v() == old(self).token_v(),
    {
        match self.status {
            ConnectionStatus::Connected => {
                let mut frames: Vec<String> = Vec::new();
                let n = self.message_queue.len();
                let mut i: usize = 0;
                while i < n
                    invariant
                        n == self.message_queue@.len(),
                        self.message_queue@ == old(self).queue(),
                        0 <= i <= n,
                        frames@.len() == i,
                        forall|j: int|
                            0 <= j < i ==> #[trigger] frames@[j]@ == spec_message_frame(
                                self.message_queue@[j],
                            ),
                    decreases n - i,
                {
                    let f = encode_message(&self.message_queue[i]);
                    frames.push(f);
                    i = i + 1;
                }
                self.message_queue.clear();
                proof {
                    assert(self.message_queue@ =~= Seq::<QueuedMessage>::empty());
                }
                Ok(frames)
            },
            _ => Err(ChannelError::NotConnected),
        }
    }

    pub fn get_queued_message_count(&self) -> (r: usize)
        ensures
            r == self.queue().len(),
    {
        self.message_queue.len()
    }

    pub fn clear_message_queue(&mut self)
        requires
            old(self).wf(),
        ensures
            final(self).wf(),
            final(self).queue() == Seq::<QueuedMessage>::empty(),
            final(self).status_v() == old(self).status_v(),
            final(self).subs() == old(self).subs(),
            final(self).attempts() == old(self).attempts(),
            final(self).max_attempts() == old(self).max_attempts(),
            final(self).delay_ms() == old(self).delay_ms(),
            final(self).url_v() == old(self).url_v(),
            final(self).token_v() == old(self).token_v(),
    {
        self.message_queue.clear();
        proof {
            assert(self.message_queue@ =~= Seq::<QueuedMessage>::empty());
        }
    }

    /// How many consultations are currently subscribed.
    pub fn subscription_count(&self) -> (r: usize)
        ensures
            r == self.subs().len(),
    {
        self.subscriptions.len()
    }

    /// Adds the consultation to the subscription set — a second
    /// subscription to the same id changes nothing — and, while
    /// connected, hands back the control frame to write.  Offline the
    /// frame is skipped, not queued: subscriptions do not survive a
    /// disconnect and must be re-issued.
    pub fn subscribe_to_consultation(&mut self, consultation_id: String) -> (r: Option<String>)
        requires
            old(self).wf(),
        ensures
            final(self).wf(),
            final(self).subs() == spec_sub_insert(old(self).subs(), consultation_id@),
            match r {
                Some(f) => old(self).status_v() is Connected && f@ == spec_subscribe_frame(
                    consultation_id@,
                ),
                None => !(old(self).status_v() is Connected),
            },
            final(self).status_v() == old(self).status_v(),
            final(self).queue() == old(self).queue(),
            final(self).attempts() == old(self).attempts(),
            final(self).max_attempts() == old(self).max_attempts(),
            final(self).delay_ms() == old(self).delay_ms(),
            final(self).url_v() == old(self).url_v(),
            final(self).token_v() == old(self).token_v(),
    {
        let n = self.subscriptions.len();
        let mut present = false;
        let mut i: usize = 0;
        while i < n
            invariant
                n == self.subscriptions@.len(),
                0 <= i <= n,
                present == exists|j: int|
                    0 <= j < i && #[trigger] self.subscriptions@[j]@ == consultation_id@,
            decreases n - i,
        {
            if crate::strutil::str_eq(
                self.subscriptions[i].as_str(),
                consultation_id.as_str(),
            ) {
                present = true;
                proof {
                    assert(self.subscriptions@[i as int]@ == consultation_id@);
                }
            }
            i = i + 1;
        }
        let frame = match self.status {
            ConnectionStatus::Connected => Some(
                crate::codec::encode_subscribe(consultation_id.as_str()),
            ),
            _ => None,
        };
        let ghost cidv = consultation_id@;
        if !present {
            proof {
                assert(!spec_subs_contains(subs_views(self.subscriptions@), cidv));
            }
            self.subscriptions.push(consultation_id);
            proof {
                let newv = self.subscriptions@;
                let oldv = old(self).subscriptions@;
                assert(newv.len() == oldv.len() + 1);
                assert(newv[newv.len() - 1]@ == cidv);
                assert forall|k: int| 0 <= k < oldv.len() implies newv[k] == oldv[k] by {}
                assert(subs_views(newv) =~= subs_views(oldv).push(cidv));
            }
        } else {
            proof {
                let oldv = self.subscriptions@;
                let j0 = choose|j: int| 0 <= j < oldv.len() && oldv[j]@ == cidv;
                assert(subs_views(oldv)[j0] == cidv);
                assert(spec_subs_contains(subs_views(oldv), cidv));
            }
        }
        frame
    }

    /// Removes the consultation from the subscription set and, while
    /// connected, hands back the control frame to write.
    pub fn unsubscribe_from_consultation(&mut self, consultation_id: String) -> (r: Option<
        String,
    >)
        requires
            old(self).wf(),
        ensures
            final(self).wf(),
            !spec_subs_contains(old(self).subs(), consultation_id@) ==> final(self).subs() == old(
                self,
            ).subs(),
            spec_subs_contains(old(self).subs(), consultation_id@) ==> exists|k: int|
                0 <= k < old(self).subs().len() && old(self).subs()[k] == consultation_id@
                    && final(self).subs() == #[trigger] old(self).subs().remove(k),
            !spec_subs_contains(final(self).subs(), consultation_id@),
            match r {
                Some(f) => old(self).status_v() is Connected && f@ == spec_unsubscribe_frame(
                    consultation_id@,
                ),
                None => !(old(self).status_v() is Connected),
            },
            final(self).status_v() == old(self).status_v(),
            final(self).queue() == old(self).queue(),
            final(self).attempts() == old(self).attempts(),
            final(self).max_attempts() == old(self).max_attempts(),
            final(self).delay_ms() == old(self).delay_ms(),
            final(self).url_v() == old(self).url_v(),
            final(self).token_v() == old(self).token_v(),
    {
        let ghost cidv = consultation_id@;
        let n = self.subscriptions.len();
        let mut found: usize = n;
        let mut i: usize = 0;
        while i < n
            invariant
                n == self.subscriptions@.len(),
                0 <= i <= n,
                found <= n,
                cidv == consultation_id@,
                found == n ==> forall|j: int|
                    0 <= j < i ==> #[trigger] self.subscriptions@[j]@ != cidv,
                found < n ==> found < i && self.subscriptions@[found as int]@ == cidv,
                found < n ==> forall|j: int|
                    0 <= j < found ==> #[trigger] self.subscriptions@[j]@ != cidv,
            decreases n - i,
        {
            if found == n && crate::strutil::str_eq(
                self.subscriptions[i].as_str(),
                consultation_id.as_str(),
            ) {
                found = i;
            }
            i = i + 1;
        }
        if found < n {
            self.subscriptions.remove(found);
            proof {
                assert(subs_views(self.subscriptions@) =~= subs_views(
                    old(self).subscriptions@,
                ).remove(found as int));
                assert(old(self).subs()[found as int] == cidv);
                assert forall|j: int|
                    0 <= j < subs_views(self.subscriptions@).len() implies #[trigger] subs_views(
                    self.subscriptions@,
                )[j] != cidv by {
                    if j < found {
                        assert(subs_views(self.subscriptions@)[j] == old(self).subs()[j]);
                        assert(old(self).subs()[j] != cidv);
                    } else {
                        assert(subs_views(self.subscriptions@)[j] == old(self).subs()[j + 1]);
                        assert(found < j + 1 < old(self).subs().len());
                        assert(old(self).subs()[found as int] != old(self).subs()[j + 1]);
                    }
                }
            }
        } else {
            proof {
                assert(!spec_subs_contains(old(self).subs(), cidv));
            }
        }
        match self.status {
            ConnectionStatus::Connected => Some(
                crate::codec::encode_unsubscribe(consultation_id.as_str()),
            ),
            _ => None,
        }
    }

    /// The read-receipt frame for a message, available only while
    /// connected; best effort, never queued.
    pub fn send_read_receipt(&self, consultation_id: &str, message_id: &str) -> (r: Option<
        String,
    >)
        ensures
            match r {
                Some(f) => self.status_v() is Connected && f@
                    == crate::codec::spec_read_receipt_frame(consultation_id@, message_id@),
                None => !(self.status_v() is Connected),
            },
    {
        match self.status {
            ConnectionStatus::Connected => Some(
                crate::codec::encode_read_receipt(consultation_id, message_id),
            ),
            _ => None,
        }
    }

    /// The typing-status frame, available only while connected; best
    /// effort, never queued.
    pub fn send_typing_status(&self, consultation_id: &str, is_typing: bool) -> (r: Option<
        String,
    >)
        ensures
            match r {
                Some(f) => self.status_v() is Connected && f@ == crate::codec::spec_typing_frame(
                    consultation_id@,
                    is_typing,
                ),
                None => !(self.status_v() is Connected),
            },
    {
        match self.status {
            ConnectionStatus::Connected => Some(
                crate::codec::encode_typing(consultation_id, is_typing),
            ),
            _ => None,
        }
    }

    /// Decides what to do after the session dropped.  While attempts
    /// remain the counter moves up by exactly one, the status shows
    /// `Reconnecting`, and the caller is told how long to wait (linear
    /// back-off).  Once the limit is passed the status is a terminal
    /// error, the counter freezes, and no retry is ever planned again.
    pub fn plan_reconnect(&mut self) -> (r: ReconnectDecision)
        requires
            old(self).wf(),
        ensures
            final(self).wf(),
            old(self).attempts() <= old(self).max_attempts() ==> final(self).attempts() == old(
                self,
            ).attempts() + 1,
            old(self).attempts() > old(self).max_attempts() ==> final(self).attempts() == old(
                self,
            ).attempts(),
            (r is RetryAfter) <==> (final(self).attempts() <= final(self).max_attempts()),
            r matches ReconnectDecision::RetryAfter(d) ==> (d == final(self).delay_ms() * (
            final(self).attempts() as u64) && final(self).status_v() is Reconnecting),
            r is GiveUp ==> final(self).status_v() == StatusV::Error(
                "Max reconnection attempts ("@ + spec_decimal(
                    final(self).max_attempts() as nat,
                ) + ") exceeded"@,
            ),
            final(self).queue() == old(self).queue(),
            final(self).subs() == old(self).subs(),
            final(self).max_attempts() == old(self).max_attempts(),
            final(self).delay_ms() == old(self).delay_ms(),
            final(self).url_v() == old(self).url_v(),
            final(self).token_v() == old(self).token_v(),
    {
        if self.reconnect_attempts <= self.max_reconnect_attempts {
            self.reconnect_attempts = self.reconnect_attempts + 1;
        }
        if self.reconnect_attempts <= self.max_reconnect_attempts {
            self.status = ConnectionStatus::Reconnecting;
            proof {
                assert(self.reconnect_delay_ms * (self.reconnect_attempts as u64) <= 60000
                    * 0x10000) by (nonlinear_arith)
                    requires
                        self.reconnect_delay_ms <= 60000,
                        self.reconnect_attempts <= 0x10000,
                ;
            }
            let delay = self.reconnect_delay_ms * (self.reconnect_attempts as u64);
            ReconnectDecision::RetryAfter(delay)
        } else {
            let mut m = String::from_str("Max reconnection attempts (");
            push_u64(&mut m, self.max_reconnect_attempts as u64);
            m.append(") exceeded");
            proof {
                assert(m@ =~= "Max reconnection attempts ("@ + spec_decimal(
                    self.max_reconnect_attempts as nat,
                ) + ") exceeded"@);
            }
            self.status = ConnectionStatus::Error(m);
            ReconnectDecision::GiveUp
        }
    }
}

/// The URL a handshake dials: the endpoint itself, or with the token
/// appended as the first or a further query parameter.
pub open spec fn spec_connect_url(url: Seq<char>, token: Option<Seq<char>>) -> Seq<char> {
    match token {
        None => url,
        Some(t) => url + (if exists|j: int| 0 <= j < url.len() && url[j] == '?' {
            seq!['&']
        } else {
            seq!['?']
        }) + "token="@ + t,
    }
}

} // verus!
