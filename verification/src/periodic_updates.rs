//! The live-status broadcaster's data and per-tick decision.
//!
//! A single shared slot holds the status message being kept up to date and
//! the open session's start time; the embedding program overwrites it when
//! a session opens or closes and runs a loop that, on a fixed cadence,
//! applies `periodic_update_msg` to whatever the slot holds and performs
//! the edit it asks for. A tick against an empty slot does nothing, so the
//! loop never stops over a stale value.
use crate::time::{get_time_difference, spec_elapsed_text, timestamp_in_range};
use vstd::prelude::*;

verus! {

/// An opaque handle to a message that can be edited in place.
#[derive(Clone, Copy, Debug, PartialEq, Eq, Structural)]
pub struct MessageRef {
    pub chat_id: i64,
    pub message_id: i32,
}

/// The live slot: the status message to keep up to date, if a session is
/// open, and the session's start time.
#[derive(Clone, Copy, Debug, PartialEq)]
pub struct UpdateData(pub Option<MessageRef>, pub i64);

/// The text a tick rewrites the status message to.
pub open spec fn spec_tick_message(start: int, now: int) -> Seq<char> {
    ("Стоим ")@ + if timestamp_in_range(start) && timestamp_in_range(now) {
        spec_elapsed_text((now - start) / 60, (now - start) % 60)
    } else {
        Seq::<char>::empty()
    }
}

/// One tick of the broadcaster: nothing without a live message, else an
/// edit of that message to the current elapsed-time text.
pub fn periodic_update_msg(data: &UpdateData, now: i64) -> (r: Option<(MessageRef, String)>)
    ensures
        data.0 is None ==> r is None,
        data.0 matches Some(m) ==> (r matches Some(p) && p.0 == m && p.1@ == spec_tick_message(
            data.1 as int,
            now as int,
        )),
{
    match &data.0 {
        Some(m) => {
            let mut text = String::from_str("Стоим ");
            let elapsed = get_time_difference(data.1, now);
            text.append(elapsed.as_str());
            Some((*m, text))
        },
        None => None,
    }
}

} // verus!
