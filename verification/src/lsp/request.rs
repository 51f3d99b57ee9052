//! What a client waiting for the reply to one request does with each
//! message the server sends meanwhile.

use vstd::prelude::*;

verus! {

/// What arrived while waiting for a reply.
#[derive(Debug, Clone, Copy, PartialEq, Eq, Structural)]
pub enum Incoming {
    /// A response, with its id (if it has one) and whether it carries an
    /// error.
    Response { id: Option<i64>, is_error: bool },
    /// A notification from the server.
    Notification,
    /// The server closed the connection.
    Disconnected,
}

/// What to do with what arrived.
#[derive(Debug, Clone, Copy, PartialEq, Eq, Structural)]
pub enum RequestStep {
    /// The awaited reply: the request succeeds with its result.
    Reply,
    /// The awaited reply carries an error: the request fails (kind `Other`).
    Failed,
    /// A response to another request: hand its result to the request of
    /// this id, if one is pending, and keep waiting.
    Forward(i64),
    /// Handle the notification and keep waiting.
    HandleNotification,
    /// The connection is gone: the request fails (kind `ConnectionAborted`).
    Aborted,
}

/// The step for `incoming` while waiting for the reply to request `waiting`.
/// A response without an id counts as the response to request -1.
pub open spec fn spec_request_step(waiting: i64, incoming: Incoming) -> RequestStep {
    match incoming {
        Incoming::Response { id, is_error } => {
            let rid: i64 = match id {
                Some(i) => i,
                None => -1i64,
            };
            if rid == waiting {
                if is_error {
                    RequestStep::Failed
                } else {
                    RequestStep::Reply
                }
            } else {
                RequestStep::Forward(rid)
            }
        },
        Incoming::Notification => RequestStep::HandleNotification,
        Incoming::Disconnected => RequestStep::Aborted,
    }
}

/// Decides what to do with a message that arrived while waiting for the
/// reply to request `waiting`.
pub fn request_step(waiting: i64, incoming: Incoming) -> (r: RequestStep)
    ensures
        r == spec_request_step(waiting, incoming),
{
    match incoming {
        Incoming::Response { id, is_error } => {
            let rid = match id {
                Some(i) => i,
                None => -1,
            };
            if rid == waiting {
                if is_error {
                    RequestStep::Failed
                } else {
                    RequestStep::Reply
                }
            } else {
                RequestStep::Forward(rid)
            }
        },
        Incoming::Notification => RequestStep::HandleNotification,
        Incoming::Disconnected => RequestStep::Aborted,
    }
}

/// The wait ends exactly at the awaited response or at a disconnect.
pub proof fn law_wait_ends_at_reply(waiting: i64, incoming: Incoming)
    ensures
        (spec_request_step(waiting, incoming) is Reply || spec_request_step(waiting, incoming) is Failed
            || spec_request_step(waiting, incoming) is Aborted) <==> (incoming is Disconnected || (
        incoming matches Incoming::Response { id, .. } && (id == Some(waiting) || (id is None
            && waiting == -1)))),
{
}

/// The ids a client gives its requests: 1, 2, 3, … in order.
#[derive(Debug)]
pub struct RequestIds {
    next: i64,
}

impl RequestIds {
    /// The id the next request gets.
    pub closed spec fn spec_next(self) -> i64 {
        self.next
    }

    /// No request sent yet: the first gets id 1.
    pub fn new() -> (r: RequestIds)
        ensures
            r.spec_next() == 1,
    {
        RequestIds { next: 1 }
    }

    /// The id of a new request; the next one gets the id after it.
    pub fn take(&mut self) -> (id: i64)
        requires
            old(self).spec_next() < i64::MAX,
        ensures
            id == old(self).spec_next(),
            final(self).spec_next() == id + 1,
    {
        let id = self.next;
        self.next = self.next + 1;
        id
    }

    /// Whether another id can be given out.
    pub fn can_take(&self) -> (r: bool)
        ensures
            r == (self.spec_next() < i64::MAX),
    {
        self.next < i64::MAX
    }
}

} // verus!
