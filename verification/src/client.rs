//! The decision the watching client takes as connections come and go: ask
//! a node for its history once per connection to it.
use vstd::prelude::*;

verus! {

/// What the client remembers between connection events: the peer it last
/// connected to, as the bytes of its identity, and whether the history has
/// been requested since.
#[derive(Debug)]
pub struct ClientSession {
    pub target_peer: Option<Vec<u8>>,
    pub requested_history: bool,
}

/// A connection event, naming the peer by the bytes of its identity.
#[derive(Debug)]
pub enum ClientEvent {
    Connected(Vec<u8>),
    Closed(Vec<u8>),
}

/// Whether two byte strings are equal.
fn bytes_eq(a: &Vec<u8>, b: &Vec<u8>) -> (r: bool)
    ensures
        r == (a@ == b@),
{
    if a.len() != b.len() {
        return false;
    }
    let mut i: usize = 0;
    while i < a.len()
        invariant
            i <= a.len() == b.len(),
            forall|k: int| 0 <= k < i ==> a@[k] == b@[k],
        decreases a.len() - i,
    {
        if a[i] != b[i] {
            return false;
        }
        i += 1;
    }
    assert(a@ =~= b@);
    true
}

/// The client's next state for a connection event, and whether to send the
/// history request now. A connection makes its peer the target and sends
/// the request unless it was already sent; the closing of the target's
/// connection allows the request again. Nothing is sent on a close.
pub fn client_step(s: ClientSession, e: ClientEvent) -> (r: (ClientSession, bool))
    ensures
        match e {
            ClientEvent::Connected(p) => r.0.target_peer == Some(p) && r.1 == !s.requested_history
                && r.0.requested_history,
            ClientEvent::Closed(p) => !r.1 && r.0.target_peer == s.target_peer
                && r.0.requested_history == (if s.target_peer matches Some(t) && t@ == p@ {
                false
            } else {
                s.requested_history
            }),
        },
{
    match e {
        ClientEvent::Connected(p) => {
            let send = !s.requested_history;
            (ClientSession { target_peer: Some(p), requested_history: true }, send)
        },
        ClientEvent::Closed(p) => {
            let is_target = match &s.target_peer {
                Some(t) => bytes_eq(t, &p),
                None => false,
            };
            let requested_history = if is_target {
                false
            } else {
                s.requested_history
            };
            (ClientSession { target_peer: s.target_peer, requested_history }, false)
        },
    }
}

} // verus!
