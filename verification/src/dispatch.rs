//! The inbound dispatcher: uniform handling of every admin and application
//! message a session receives, deciding storage, handler delivery and
//! resend fulfillment in one place.

use vstd::prelude::*;
use crate::message::{Message, field_value, TAG_MSG_SEQ_NUM, TAG_MSG_TYPE};
use crate::numeric::{parse_u64, parse_u64_spec};
use crate::resend::{
    is_resend_request, resend_range, replay_view, parse_resend_request, build_replay,
};
use crate::store::MessageStore;

verus! {

/// The sequence number a message carries: MsgSeqNum parsed as an unsigned
/// 64-bit number; `None` when the field is missing or unparsable.
pub open spec fn seq_num_of(m: Seq<(u32, Seq<char>)>) -> Option<u64> {
    match field_value(m, TAG_MSG_SEQ_NUM) {
        Some(v) => parse_u64_spec(v),
        None => None,
    }
}

/// What the dispatcher decided for one inbound message. The surrounding
/// runtime carries the decisions out: it hands the message to the user
/// handler when `forward_to_handler` is set, then transmits `to_send` to
/// the originating session one message at a time, in order, stopping at
/// the first transmission failure.
pub struct DispatchOutcome {
    /// The sequence number the message was stored under, when its
    /// MsgSeqNum parsed; `None` means the store was left untouched.
    pub stored_at: Option<u64>,
    /// Always set: every inbound message goes to the user handler once,
    /// unconditionally.
    pub forward_to_handler: bool,
    /// The replay owed for a Resend Request, in ascending sequence-number
    /// order; empty for ordinary messages.
    pub to_send: Vec<Message>,
    /// Set when the message was a Resend Request whose range was missing
    /// or unparsable: that one request is dropped and the session
    /// continues.
    pub resend_dropped: bool,
}

/// Handles one inbound message for a session: stores a copy under its
/// sequence number when MsgSeqNum parses (the store is untouched
/// otherwise — a malformed field never aborts the session), decides the
/// unconditional delivery to the user handler, and, when the message is a
/// Resend Request with a readable range, builds the replay from the store
/// as this very message just left it.
pub fn process_inbound(store: &mut MessageStore, msg: &Message) -> (r: DispatchOutcome)
    ensures
        r.forward_to_handler,
        match seq_num_of(msg@) {
            Some(n) => final(store)@ == old(store)@.insert(n, msg@) && r.stored_at == Some(n),
            None => final(store)@ == old(store)@ && r.stored_at is None,
        },
        is_resend_request(msg@) ==> match resend_range(msg@) {
            Some((b, e)) => !r.resend_dropped && r.to_send@.map_values(|m: Message| m@)
                == replay_view(final(store)@, b as int, e as int),
            None => r.resend_dropped && r.to_send@.len() == 0,
        },
        !is_resend_request(msg@) ==> !r.resend_dropped && r.to_send@.len() == 0,
{
    let stored_at: Option<u64> = match msg.get_field(TAG_MSG_SEQ_NUM) {
        Some(v) => match parse_u64(v.as_str()) {
            Some(n) => {
                store.insert(n, msg);
                Some(n)
            },
            None => None,
        },
        None => None,
    };
    let msg_type = msg.get_field(TAG_MSG_TYPE);
    let is_resend = match &msg_type {
        Some(v) => *v == "2".to_owned(),
        None => false,
    };
    if is_resend {
        match parse_resend_request(msg) {
            Some(rr) => DispatchOutcome {
                stored_at,
                forward_to_handler: true,
                to_send: build_replay(store, rr.begin, rr.end),
                resend_dropped: false,
            },
            None => DispatchOutcome {
                stored_at,
                forward_to_handler: true,
                to_send: Vec::new(),
                resend_dropped: true,
            },
        }
    } else {
        DispatchOutcome {
            stored_at,
            forward_to_handler: true,
            to_send: Vec::new(),
            resend_dropped: false,
        }
    }
}

} // verus!
