//! The connection's client edge: the exact URI a connection is opened with,
//! fresh correlation ids, the bounded event queue, and how an awaited reply
//! outcome becomes a caller's result.

use vstd::prelude::*;

use crate::error::Error;
use crate::json::{chars_vec, is_hex_char, Json};
use crate::protocol::{members_view, RequestMessage, ResponceMessage};
use crate::request::make_message;
use crate::server_parameters::ServerParametersV;
use crate::server_parameters::ServerParameters;

verus! {

/// Capacity of the event queue between driver and dispatcher.
pub const CHANNEL_BUFFER_SIZE: usize = 1024;

/// How long a caller waits for a reply before failing with a timeout.
pub const SERVICE_CALL_TIMEOUT_MILLIS: u64 = 20000;

// ---------------------------------------------------------------------------
// The connection URI
// ---------------------------------------------------------------------------
/// The exact text a connection is opened with: the URL, its path closed with
/// a slash, then the identity query.
pub open spec fn spec_uri(p: ServerParametersV) -> Seq<char> {
    (if p.web_socket_url.len() > 0 && p.web_socket_url.last() == '/' {
        p.web_socket_url
    } else {
        p.web_socket_url + seq!['/']
    }) + "?pID="@ + p.process_id + "&sdkVersion="@ + "5.0.0"@ + "&sdkLanguage="@ + "Rust"@
        + "&Authorization="@ + p.auth_token + "&ComputeId="@ + p.host_id + "&FleetId="@
        + p.fleet_id
}

/// Builds the connection URI for an identity.
pub fn create_uri(p: &ServerParameters) -> (r: String)
    ensures
        r@ == spec_uri(p@),
{
    let cs = chars_vec(p.web_socket_url.as_str());
    let mut out = p.web_socket_url.clone();
    if !(cs.len() > 0 && cs[cs.len() - 1] == '/') {
        out.append("/");
        proof {
            reveal_strlit("/");
            assert(seq!['/'] =~= "/"@);
        }
    } else {
        proof {
            assert(p.web_socket_url@.last() == cs@[cs@.len() - 1]);
        }
    }
    out.append("?pID=");
    out.append(p.process_id.as_str());
    out.append("&sdkVersion=");
    out.append(crate::get_sdk_version());
    out.append("&sdkLanguage=");
    out.append("Rust");
    out.append("&Authorization=");
    out.append(p.auth_token.as_str());
    out.append("&ComputeId=");
    out.append(p.host_id.as_str());
    out.append("&FleetId=");
    out.append(p.fleet_id.as_str());
    out
}

// ---------------------------------------------------------------------------
// Correlation ids
// ---------------------------------------------------------------------------
/// The canonical form of a version-4 id: 36 lowercase hexadecimal characters
/// with hyphens at the four fixed positions, version nibble 4, and a variant
/// nibble of 8, 9, a or b.
pub open spec fn is_uuid_v4(s: Seq<char>) -> bool {
    &&& s.len() == 36
    &&& s[8] == '-' && s[13] == '-' && s[18] == '-' && s[23] == '-'
    &&& s[14] == '4'
    &&& (s[19] == '8' || s[19] == '9' || s[19] == 'a' || s[19] == 'b')
    &&& forall|i: int|
        0 <= i < 36 && i != 8 && i != 13 && i != 18 && i != 23 ==> is_hex_char(#[trigger] s[i])
}

/// Relies on `uuid::Uuid::new_v4` and the `Display` implementation of `Uuid`:
/// a fresh version-4 id rendered in the canonical lowercase hyphenated form.
#[verifier::external_body]
pub fn new_request_id() -> (r: String)
    ensures
        is_uuid_v4(r@),
{
    uuid::Uuid::new_v4().to_string()
}

/// Checks a string against the canonical version-4 form.
pub fn is_uuid_v4_str(s: &str) -> (r: bool)
    ensures
        r == is_uuid_v4(s@),
{
    let cs = chars_vec(s);
    if cs.len() != 36 {
        return false;
    }
    if !(cs[8] == '-' && cs[13] == '-' && cs[18] == '-' && cs[23] == '-') {
        return false;
    }
    if cs[14] != '4' {
        return false;
    }
    if !(cs[19] == '8' || cs[19] == '9' || cs[19] == 'a' || cs[19] == 'b') {
        return false;
    }
    let mut i: usize = 0;
    while i < 36
        invariant
            0 <= i <= 36,
            cs@ == s@,
            cs@.len() == 36,
            forall|k: int|
                0 <= k < i && k != 8 && k != 13 && k != 18 && k != 23 ==> is_hex_char(
                    #[trigger] cs@[k],
                ),
        decreases 36 - i,
    {
        if i != 8 && i != 13 && i != 18 && i != 23 {
            let c = cs[i];
            if !(('0' <= c && c <= '9') || ('a' <= c && c <= 'f')) {
                return false;
            }
        }
        i = i + 1;
    }
    true
}

/// Wraps a request's content into an envelope under a fresh version-4
/// correlation id.
pub fn request_envelope(action: &str, content: Vec<(String, Json)>) -> (r: RequestMessage)
    ensures
        r@.action == action@,
        is_uuid_v4(r@.request_id),
        r@.content == members_view(content@),
{
    make_message(action, new_request_id(), content)
}

// ---------------------------------------------------------------------------
// The bounded event queue
// ---------------------------------------------------------------------------
/// A first-in-first-out queue with a fixed capacity: offering to a full queue
/// drops the item rather than waiting.
pub struct EventQueue<T> {
    items: Vec<T>,
    cap: usize,
}

impl<T> EventQueue<T> {
    pub closed spec fn contents(&self) -> Seq<T> {
        self.items@
    }

    pub closed spec fn capacity(&self) -> usize {
        self.cap
    }

    pub fn new(cap: usize) -> (r: EventQueue<T>)
        ensures
            r.contents() == Seq::<T>::empty(),
            r.capacity() == cap,
    {
        let r = EventQueue { items: Vec::new(), cap };
        proof {
            assert(r.items@ =~= Seq::<T>::empty());
        }
        r
    }

    pub fn len(&self) -> (r: usize)
        ensures
            r == self.contents().len(),
    {
        self.items.len()
    }

    /// Offers one item without ever waiting: the item is appended when there
    /// is room and dropped when the queue is full.
    pub fn try_push(&mut self, t: T) -> (accepted: bool)
        ensures
            final(self).capacity() == old(self).capacity(),
            old(self).contents().len() < old(self).capacity() ==> accepted
                && final(self).contents() == old(self).contents().push(t),
            old(self).contents().len() >= old(self).capacity() ==> !accepted
                && final(self).contents() == old(self).contents(),
    {
        if self.items.len() < self.cap {
            self.items.push(t);
            true
        } else {
            false
        }
    }

    /// Takes the oldest item: items leave in exactly the order they entered.
    pub fn pop(&mut self) -> (r: Option<T>)
        ensures
            final(self).capacity() == old(self).capacity(),
            old(self).contents().len() == 0 ==> r is None
                && final(self).contents() == old(self).contents(),
            old(self).contents().len() > 0 ==> (match r {
                Some(t) => t == old(self).contents()[0]
                    && final(self).contents() == old(self).contents().drop_first(),
                None => false,
            }),
    {
        if self.items.len() == 0 {
            None
        } else {
            let t = self.items.remove(0);
            proof {
                assert(self.items@ =~= old(self).items@.drop_first());
            }
            Some(t)
        }
    }
}

// ---------------------------------------------------------------------------
// Awaiting a reply
// ---------------------------------------------------------------------------
/// How waiting on a reply slot can end.
pub enum AwaitOutcome {
    /// The driver settled the slot with a reply or a failure.
    Settled(Result<ResponceMessage, Error>),
    /// Nothing arrived within the service call timeout.
    TimedOut,
    /// The driver went away without settling the slot.
    ChannelClosed,
}

/// What a caller's request becomes once the wait ends: the driver's verdict
/// passes through, a timeout fails with `RequestTimeout`, and a vanished
/// driver fails as already closed.
pub fn complete_request(o: AwaitOutcome) -> (r: Result<ResponceMessage, Error>)
    ensures
        o matches AwaitOutcome::Settled(v) ==> r == v,
        o is TimedOut ==> (r matches Result::Err(e) && e is RequestTimeout),
        o is ChannelClosed ==> (r matches Result::Err(e) && e is LocalConnectionAlreadyClosed),
{
    match o {
        AwaitOutcome::Settled(v) => v,
        AwaitOutcome::TimedOut => Err(Error::RequestTimeout),
        AwaitOutcome::ChannelClosed => Err(Error::LocalConnectionAlreadyClosed),
    }
}

} // verus!
