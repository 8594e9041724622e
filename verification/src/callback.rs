//! Events for the application: they are queued as they arise and turned,
//! one by one, into calls of the callbacks that are registered.

use bytes::Bytes;
use vstd::prelude::*;
use vstd::utf8;

use crate::buffer;
use crate::protocol;
use crate::types::PeerId;

verus! {

/// How many events are queued at most; further ones are dropped.
pub const EVENT_QUEUE_CAPACITY: usize = 1024;

/// Something that the application is told.
#[derive(Debug)]
pub enum CallbackEvent {
    ConnectionResult { addr: String, success: bool, error_code: i32 },
    LeaderChanged { leader_id: Option<String> },
    PeerStatusChanged { peer_id: String, status: i32 },
    Received { peer_id: String, data: Bytes, msg_type: u16, flags: u8 },
}

/// The value of a [`CallbackEvent`].
#[verifier::ext_equal]
pub enum CallbackEventView {
    ConnectionResult { addr: Seq<char>, success: bool, error_code: i32 },
    LeaderChanged { leader_id: Option<Seq<char>> },
    PeerStatusChanged { peer_id: Seq<char>, status: i32 },
    Received { peer_id: Seq<char>, data: Seq<u8>, msg_type: u16, flags: u8 },
}

impl View for CallbackEvent {
    type V = CallbackEventView;

    open spec fn view(&self) -> CallbackEventView {
        match *self {
            CallbackEvent::ConnectionResult { addr, success, error_code } =>
                CallbackEventView::ConnectionResult { addr: addr@, success, error_code },
            CallbackEvent::LeaderChanged { leader_id } => CallbackEventView::LeaderChanged {
                leader_id: protocol::optional_text(leader_id),
            },
            CallbackEvent::PeerStatusChanged { peer_id, status } =>
                CallbackEventView::PeerStatusChanged { peer_id: peer_id@, status },
            CallbackEvent::Received { peer_id, data, msg_type, flags } =>
                CallbackEventView::Received {
                peer_id: peer_id@,
                data: buffer::contents(data),
                msg_type,
                flags,
            },
        }
    }
}

/// The call of a callback, with its arguments. No text holds a NUL.
#[derive(Debug)]
pub enum CallbackCall {
    ConnectionResult { addr: String, success: u8, error_code: i32 },
    LeaderChanged { leader_id: String },
    PeerStatusChanged { peer_id: String, status: i32 },
    Received { peer_id: String, data: Bytes, length: i32, msg_type: u16, flags: u8 },
}

/// The value of a [`CallbackCall`].
#[verifier::ext_equal]
pub enum CallbackCallView {
    ConnectionResult { addr: Seq<char>, success: u8, error_code: i32 },
    LeaderChanged { leader_id: Seq<char> },
    PeerStatusChanged { peer_id: Seq<char>, status: i32 },
    Received { peer_id: Seq<char>, data: Seq<u8>, length: i32, msg_type: u16, flags: u8 },
}

impl View for CallbackCall {
    type V = CallbackCallView;

    open spec fn view(&self) -> CallbackCallView {
        match *self {
            CallbackCall::ConnectionResult { addr, success, error_code } =>
                CallbackCallView::ConnectionResult { addr: addr@, success, error_code },
            CallbackCall::LeaderChanged { leader_id } => CallbackCallView::LeaderChanged {
                leader_id: leader_id@,
            },
            CallbackCall::PeerStatusChanged { peer_id, status } =>
                CallbackCallView::PeerStatusChanged { peer_id: peer_id@, status },
            CallbackCall::Received { peer_id, data, length, msg_type, flags } =>
                CallbackCallView::Received {
                peer_id: peer_id@,
                data: buffer::contents(data),
                length,
                msg_type,
                flags,
            },
        }
    }
}

/// Does the text hold a NUL, so that it cannot be handed out as a C string?
pub open spec fn has_nul(t: Seq<char>) -> bool {
    utf8::encode_utf8(t).contains(0u8)
}

/// Does the text hold a NUL, so that it cannot be handed out as a C string?
pub fn contains_nul(t: &str) -> (r: bool)
    ensures
        r == has_nul(t@),
{
    let b = t.as_bytes();
    let mut i: usize = 0;
    while i < b.len()
        invariant
            i <= b@.len(),
            b@ == utf8::encode_utf8(t@),
            forall|j: int| 0 <= j < i ==> b@[j] != 0,
        decreases b@.len() - i,
    {
        if b[i] == 0 {
            assert(b@[i as int] == 0);
            return true;
        }
        i = i + 1;
    }
    false
}

/// The value of a [`CallbackManager`].
#[verifier::ext_equal]
pub struct CallbackView {
    // Which callbacks are registered.
    pub connection_result: bool,
    pub leader_changed: bool,
    pub peer_status: bool,
    pub receive: bool,
    /// Are events still taken?
    pub open: bool,
    /// The events that wait, oldest first.
    pub queue: Seq<CallbackEventView>,
}

impl CallbackView {
    /// The state after an event has come up. It is dropped if the queue is
    /// full or no longer open.
    pub open spec fn sent(self, e: CallbackEventView) -> Self {
        if self.open && self.queue.len() < EVENT_QUEUE_CAPACITY {
            CallbackView { queue: self.queue.push(e), ..self }
        } else {
            self
        }
    }

    /// The state after several events have come up, one after the other.
    pub open spec fn sent_all(self, events: Seq<CallbackEventView>) -> Self
        decreases events.len(),
    {
        if events.len() == 0 {
            self
        } else {
            self.sent_all(events.drop_last()).sent(events.last())
        }
    }

    /// The call that an event amounts to: none if no callback is registered
    /// for it or its text holds a NUL. No leader is the empty text.
    pub open spec fn call_for(self, e: CallbackEventView) -> Option<CallbackCallView> {
        match e {
            CallbackEventView::ConnectionResult { addr, success, error_code } => if self.connection_result
                && !has_nul(addr) {
                Some(
                    CallbackCallView::ConnectionResult {
                        addr,
                        success: if success {
                            1
                        } else {
                            0
                        },
                        error_code,
                    },
                )
            } else {
                None
            },
            CallbackEventView::LeaderChanged { leader_id } => {
                let t = match leader_id {
                    Some(t) => t,
                    None => Seq::<char>::empty(),
                };
                if self.leader_changed && !has_nul(t) {
                    Some(CallbackCallView::LeaderChanged { leader_id: t })
                } else {
                    None
                }
            },
            CallbackEventView::PeerStatusChanged { peer_id, status } => if self.peer_status
                && !has_nul(peer_id) {
                Some(CallbackCallView::PeerStatusChanged { peer_id, status })
            } else {
                None
            },
            CallbackEventView::Received { peer_id, data, msg_type, flags } => if self.receive
                && !has_nul(peer_id) {
                Some(
                    CallbackCallView::Received {
                        peer_id,
                        data,
                        length: data.len() as i32,
                        msg_type,
                        flags,
                    },
                )
            } else {
                None
            },
        }
    }
}

/// Queues events for the application and knows which callbacks are
/// registered. The callbacks themselves belong to whoever calls them.
pub struct CallbackManager {
    connection_result: bool,
    leader_changed: bool,
    peer_status: bool,
    receive: bool,
    open: bool,
    queue: Vec<CallbackEvent>,
}

/// The values of a list of events.
pub open spec fn callback_events_view(s: Seq<CallbackEvent>) -> Seq<CallbackEventView> {
    s.map_values(|e: CallbackEvent| e@)
}

impl View for CallbackManager {
    type V = CallbackView;

    closed spec fn view(&self) -> CallbackView {
        CallbackView {
            connection_result: self.connection_result,
            leader_changed: self.leader_changed,
            peer_status: self.peer_status,
            receive: self.receive,
            open: self.open,
            queue: callback_events_view(self.queue@),
        }
    }
}

impl CallbackManager {
    /// A manager without callbacks and events.
    pub fn new() -> (r: Self)
        ensures
            r@ == (CallbackView {
                connection_result: false,
                leader_changed: false,
                peer_status: false,
                receive: false,
                open: true,
                queue: Seq::empty(),
            }),
    {
        let r = Self {
            connection_result: false,
            leader_changed: false,
            peer_status: false,
            receive: false,
            open: true,
            queue: Vec::new(),
        };
        assert(r@.queue =~= Seq::<CallbackEventView>::empty());
        r
    }

    /// Turn an event into the call of a callback, if one is registered for it.
    pub fn dispatch_event(&self, event: CallbackEvent) -> (r: Option<CallbackCall>)
        ensures
            match r {
                Some(c) => self@.call_for(event@) == Some(c@),
                None => self@.call_for(event@) is None,
            },
    {
        match event {
            CallbackEvent::ConnectionResult { addr, success, error_code } => {
                if !self.connection_result || contains_nul(addr.as_str()) {
                    return None;
                }
                let success: u8 = if success {
                    1
                } else {
                    0
                };
                Some(CallbackCall::ConnectionResult { addr, success, error_code })
            },
            CallbackEvent::LeaderChanged { leader_id } => {
                let leader = match leader_id {
                    Some(t) => t,
                    None => String::new(),
                };
                if !self.leader_changed || contains_nul(leader.as_str()) {
                    return None;
                }
                Some(CallbackCall::LeaderChanged { leader_id: leader })
            },
            CallbackEvent::PeerStatusChanged { peer_id, status } => {
                if !self.peer_status || contains_nul(peer_id.as_str()) {
                    return None;
                }
                Some(CallbackCall::PeerStatusChanged { peer_id, status })
            },
            CallbackEvent::Received { peer_id, data, msg_type, flags } => {
                if !self.receive || contains_nul(peer_id.as_str()) {
                    return None;
                }
                let length: i32 = #[verifier::truncate]
                (buffer::bytes_as_slice(&data).len() as i32);
                Some(CallbackCall::Received { peer_id, data, length, msg_type, flags })
            },
        }
    }

    /// Queue an event. It is dropped if the queue is full or no longer open.
    pub fn send_event(&mut self, event: CallbackEvent)
        ensures
            final(self)@ == old(self)@.sent(event@),
    {
        if self.open && self.queue.len() < EVENT_QUEUE_CAPACITY {
            self.queue.push(event);
            assert(self@.queue =~= old(self)@.queue.push(event@));
        }
    }

    /// Queue the result of a connection attempt.
    pub fn send_connection_result(&mut self, addr: &str, success: bool, error_code: i32)
        ensures
            final(self)@ == old(self)@.sent(
                CallbackEventView::ConnectionResult { addr: addr@, success, error_code },
            ),
    {
        self.send_event(
            CallbackEvent::ConnectionResult { addr: addr.to_owned(), success, error_code },
        );
    }

    /// Queue a change of the leader.
    pub fn send_leader_changed(&mut self, leader_id: Option<&PeerId>)
        ensures
            final(self)@ == old(self)@.sent(
                CallbackEventView::LeaderChanged {
                    leader_id: match leader_id {
                        Some(p) => Some(p@),
                        None => None,
                    },
                },
            ),
    {
        let leader_id = match leader_id {
            Some(p) => Some(p.to_string()),
            None => None,
        };
        self.send_event(CallbackEvent::LeaderChanged { leader_id });
    }

    /// Queue a change of a peer's status.
    pub fn send_peer_status(&mut self, peer_id: &PeerId, status: i32)
        ensures
            final(self)@ == old(self)@.sent(
                CallbackEventView::PeerStatusChanged { peer_id: peer_id@, status },
            ),
    {
        self.send_event(CallbackEvent::PeerStatusChanged { peer_id: peer_id.to_string(), status });
    }

    /// Queue a message that has arrived.
    pub fn send_received(&mut self, peer_id: &PeerId, data: Bytes, msg_type: u16, flags: u8)
        ensures
            final(self)@ == old(self)@.sent(
                CallbackEventView::Received {
                    peer_id: peer_id@,
                    data: buffer::contents(data),
                    msg_type,
                    flags,
                },
            ),
    {
        self.send_event(
            CallbackEvent::Received { peer_id: peer_id.to_string(), data, msg_type, flags },
        );
    }

    /// Take the oldest event, unless the manager was shut down.
    pub fn next_event(&mut self) -> (r: Option<CallbackEvent>)
        ensures
            match r {
                Some(e) => {
                    &&& old(self)@.open
                    &&& old(self)@.queue.len() > 0
                    &&& e@ == old(self)@.queue[0]
                    &&& final(self)@ == (CallbackView {
                        queue: old(self)@.queue.skip(1),
                        ..old(self)@
                    })
                },
                None => {
                    &&& !old(self)@.open || old(self)@.queue.len() == 0
                    &&& final(self)@ == old(self)@
                },
            },
    {
        if !self.open || self.queue.len() == 0 {
            return None;
        }
        let e = self.queue.remove(0);
        assert(self@.queue =~= old(self)@.queue.skip(1));
        Some(e)
    }

    /// Note whether a callback for connection results is registered.
    pub fn register_connection_result_callback(&mut self, registered: bool)
        ensures
            final(self)@ == (CallbackView { connection_result: registered, ..old(self)@ }),
    {
        self.connection_result = registered;
    }

    /// Note whether a callback for leader changes is registered.
    pub fn register_leader_changed_callback(&mut self, registered: bool)
        ensures
            final(self)@ == (CallbackView { leader_changed: registered, ..old(self)@ }),
    {
        self.leader_changed = registered;
    }

    /// Note whether a callback for status changes is registered.
    pub fn register_peer_status_callback(&mut self, registered: bool)
        ensures
            final(self)@ == (CallbackView { peer_status: registered, ..old(self)@ }),
    {
        self.peer_status = registered;
    }

    /// Note whether a callback for messages is registered.
    pub fn register_receive_callback(&mut self, registered: bool)
        ensures
            final(self)@ == (CallbackView { receive: registered, ..old(self)@ }),
    {
        self.receive = registered;
    }

    /// Take no more events and hand out none.
    pub fn drain_and_shutdown(&mut self)
        ensures
            final(self)@ == (CallbackView { open: false, ..old(self)@ }),
    {
        self.open = false;
    }

    /// Was the manager shut down?
    pub fn is_shut_down(&self) -> (r: bool)
        ensures
            r == !self@.open,
    {
        !self.open
    }
}

// --- laws -------------------------------------------------------------------
/// As long as the queue has room, events are queued in the order in which
/// they come up, and none is lost.
pub proof fn law_events_keep_their_order(s: CallbackView, events: Seq<CallbackEventView>)
    requires
        s.open,
        s.queue.len() + events.len() <= EVENT_QUEUE_CAPACITY,
    ensures
        s.sent_all(events) == (CallbackView { queue: s.queue + events, ..s }),
    decreases events.len(),
{
    if events.len() == 0 {
        assert(s.queue + events =~= s.queue);
    } else {
        law_events_keep_their_order(s, events.drop_last());
        assert((s.queue + events.drop_last()).push(events.last()) =~= s.queue + events);
    }
}

/// The queue never grows beyond its capacity.
pub proof fn law_queue_is_bounded(s: CallbackView, events: Seq<CallbackEventView>)
    requires
        s.queue.len() <= EVENT_QUEUE_CAPACITY,
    ensures
        s.sent_all(events).queue.len() <= EVENT_QUEUE_CAPACITY,
    decreases events.len(),
{
    if events.len() > 0 {
        law_queue_is_bounded(s, events.drop_last());
    }
}

/// No callback is called that is not registered.
pub proof fn law_only_registered_callbacks_are_called(s: CallbackView, e: CallbackEventView)
    requires
        s.call_for(e) is Some,
    ensures
        e is ConnectionResult ==> s.connection_result,
        e is LeaderChanged ==> s.leader_changed,
        e is PeerStatusChanged ==> s.peer_status,
        e is Received ==> s.receive,
{
}

} // verus!
