//! The per-conversation session state machine.
//!
//! A conversation's dialogue moves between states on inbound events; each
//! step yields the successor state together with the effects the embedding
//! program must perform: install or clear the live slot, pin or unpin the
//! open-session notice, record a closed session in the totals store, ask
//! the intent classifier about freeform text, or send a reply.
//!
//! Classification runs in two steps so that a classifier failure can never
//! close a session: freeform text during an open session yields a
//! `classify` request, and only a later `Classified` event with a positive
//! verdict closes; a failed or negative verdict leaves everything as it
//! was.
use crate::time::{
    dec_string_i64, get_time_difference, spec_dec_int, spec_elapsed_text, spec_hms_text,
    timestamp_in_range, total_seconds_to_hms,
};
use vstd::prelude::*;

verus! {

/// Dialogue state of one conversation.
#[derive(Debug, PartialEq)]
pub enum State {
    /// Nothing in progress.
    Start,
    /// A session is open: it started at `timestamp` in conversation
    /// `chat_id`.
    ReceiveStandingCommand { chat_id: i64, timestamp: i64 },
    StopStanding { chat_id: i64 },
    ReceiveFullName,
    /// A target conversation is chosen and a session can be opened.
    StandingChoice { chat_id: i64 },
    ReceiveProductChoice { full_name: String },
}

impl Clone for State {
    fn clone(&self) -> (r: Self)
        ensures
            r == *self,
    {
        match self {
            State::Start => State::Start,
            State::ReceiveStandingCommand { chat_id, timestamp } => State::ReceiveStandingCommand {
                chat_id: *chat_id,
                timestamp: *timestamp,
            },
            State::StopStanding { chat_id } => State::StopStanding { chat_id: *chat_id },
            State::ReceiveFullName => State::ReceiveFullName,
            State::StandingChoice { chat_id } => State::StandingChoice { chat_id: *chat_id },
            State::ReceiveProductChoice { full_name } => State::ReceiveProductChoice {
                full_name: full_name.clone(),
            },
        }
    }
}

impl Default for State {
    fn default() -> (r: Self)
        ensures
            r == State::Start,
    {
        State::Start
    }
}

/// One inbound event for a conversation's dialogue.
#[derive(Debug)]
pub enum Event {
    /// The user shared the conversation to track.
    ChatShared { chat_id: i64 },
    /// A text message, stamped with its date.
    Text { text: String, date: i64 },
    /// A sticker, identified by its persistent unique id.
    Sticker { chat_id: i64, unique_id: String, date: i64 },
    /// The classifier's verdict on earlier freeform text; `None` when
    /// classification failed.
    Classified { positive: Option<bool>, date: i64 },
    /// The explicit cancel command.
    Cancel,
}

/// The live-slot effect of a step.
#[derive(Clone, Copy, Debug, PartialEq)]
pub enum LiveChange {
    Keep,
    Install { chat_id: i64, start: i64 },
    Clear,
}

/// A closed session to record: add `end - start` elapsed seconds to the
/// start day's bucket for `chat_id`.
#[derive(Clone, Copy, Debug, PartialEq)]
pub struct CloseRecord {
    pub chat_id: i64,
    pub start: i64,
    pub end: i64,
}

/// The successor state of a step and the effects to perform.
#[derive(Debug)]
pub struct Transition {
    pub next: State,
    pub live: LiveChange,
    /// Post the open-session notice with its media cue and pin it.
    pub pin_notice: bool,
    /// Unpin the open-session notice.
    pub unpin: bool,
    /// A closed session to add to the totals store.
    pub close: Option<CloseRecord>,
    /// Freeform text to hand to the intent classifier.
    pub classify: Option<String>,
    /// A reply to send to the conversation.
    pub reply: Option<String>,
}

/// The confirmation phrase that opens a session.
pub fn confirm_phrase() -> (r: &'static str)
    ensures
        r@ == ("СТОИМ БРАТЬЯ")@,
{
    "СТОИМ БРАТЬЯ"
}

/// The exact phrase that closes a session.
pub fn close_phrase() -> (r: &'static str)
    ensures
        r@ == ("СИДИМ")@,
{
    "СИДИМ"
}

/// The persistent id of the marker that opens a session.
pub fn sticker_stand() -> (r: &'static str)
    ensures
        r@ == ("AgADUW0AAk1IgUo")@,
{
    "AgADUW0AAk1IgUo"
}

/// The fixed allow-set of marker ids that close a session.
pub open spec fn spec_is_sit_sticker(u: Seq<char>) -> bool {
    ||| u == ("AgADlmEAAlOI8Eo")@
    ||| u == ("AgADF3IAAgh4iEo")@
    ||| u == ("AgAD5WYAAtxw-Uo")@
    ||| u == ("AgADP24AAn23-Eo")@
    ||| u == ("AgADYmMAAhK2qUo")@
}

/// Character-for-character equality of two string slices.
pub fn str_eq(a: &str, b: &str) -> (r: bool)
    ensures
        r == (a@ == b@),
{
    let la = a.unicode_len();
    let lb = b.unicode_len();
    if la != lb {
        return false;
    }
    let mut i: usize = 0;
    while i < la
        invariant
            la == a@.len(),
            lb == b@.len(),
            la == lb,
            i <= la,
            forall|j: int| 0 <= j < i ==> a@[j] == b@[j],
        decreases la - i,
    {
        if a.get_char(i) != b.get_char(i) {
            return false;
        }
        i = i + 1;
    }
    proof {
        assert(a@ =~= b@);
    }
    true
}

/// Whether `u` is in the allow-set of session-closing marker ids.
pub fn is_sit_sticker(u: &str) -> (r: bool)
    ensures
        r == spec_is_sit_sticker(u@),
{
    str_eq(u, "AgADlmEAAlOI8Eo") || str_eq(u, "AgADF3IAAgh4iEo") || str_eq(u, "AgAD5WYAAtxw-Uo")
        || str_eq(u, "AgADP24AAn23-Eo") || str_eq(u, "AgADYmMAAhK2qUo")
}

/// The elapsed-time fragment of a status or close message: the formatted
/// minutes and seconds, or nothing when a timestamp is out of range.
pub open spec fn spec_elapsed_fragment(start: int, end: int) -> Seq<char> {
    if timestamp_in_range(start) && timestamp_in_range(end) {
        spec_elapsed_text((end - start) / 60, (end - start) % 60)
    } else {
        Seq::<char>::empty()
    }
}

/// The message sent when a session closes.
pub open spec fn spec_close_message(start: int, end: int) -> Seq<char> {
    ("ПОСТОЯЛИ ")@ + spec_elapsed_fragment(start, end)
}

/// The status reply sent while a session stays open.
pub open spec fn spec_status_message(start: int, now: int) -> Seq<char> {
    ("СТОИМ ")@ + spec_elapsed_fragment(start, now)
}

/// A step that changes nothing and performs nothing.
pub open spec fn spec_keep_state(old_state: State, t: Transition) -> bool {
    &&& t.next == old_state
    &&& t.live == LiveChange::Keep
    &&& !t.pin_notice
    &&& !t.unpin
    &&& t.close is None
    &&& t.classify is None
    &&& t.reply is None
}

/// A step that opens a session for `chat_id` at `date`: the state holds
/// the start time, the live slot is installed, and the notice is pinned.
pub open spec fn spec_open_transition(chat_id: i64, date: i64, t: Transition) -> bool {
    &&& t.next == (State::ReceiveStandingCommand { chat_id, timestamp: date })
    &&& t.live == (LiveChange::Install { chat_id, start: date })
    &&& t.pin_notice
    &&& !t.unpin
    &&& t.close is None
    &&& t.classify is None
    &&& t.reply is None
}

/// A step that closes the session that ran from `start` to `end`: the
/// elapsed time is recorded, the live slot cleared, the notice unpinned,
/// the elapsed-time message sent, and the dialogue is ready to reopen.
pub open spec fn spec_close_transition(chat_id: i64, start: i64, end: i64, t: Transition) -> bool {
    &&& t.next == (State::StandingChoice { chat_id })
    &&& t.live == LiveChange::Clear
    &&& !t.pin_notice
    &&& t.unpin
    &&& t.close == Some(CloseRecord { chat_id, start, end })
    &&& t.classify is None
    &&& t.reply matches Some(r) && r@ == spec_close_message(start as int, end as int)
}

/// A step that replies with the current elapsed time and changes nothing
/// else.
pub open spec fn spec_status_transition(old_state: State, start: i64, now: i64, t: Transition) -> bool {
    &&& t.next == old_state
    &&& t.live == LiveChange::Keep
    &&& !t.pin_notice
    &&& !t.unpin
    &&& t.close is None
    &&& t.classify is None
    &&& t.reply matches Some(r) && r@ == spec_status_message(start as int, now as int)
}

/// A step that hands freeform text to the classifier and changes nothing
/// else.
pub open spec fn spec_classify_transition(old_state: State, text: Seq<char>, t: Transition) -> bool {
    &&& t.next == old_state
    &&& t.live == LiveChange::Keep
    &&& !t.pin_notice
    &&& !t.unpin
    &&& t.close is None
    &&& t.classify matches Some(q) && q@ == text
    &&& t.reply is None
}

/// A cancel while a session is open: the session is abandoned — nothing
/// is recorded — the live slot cleared, the notice unpinned, and the
/// dialogue reset.
pub open spec fn spec_cancel_open(t: Transition) -> bool {
    &&& t.next == State::Start
    &&& t.live == LiveChange::Clear
    &&& !t.pin_notice
    &&& t.unpin
    &&& t.close is None
    &&& t.classify is None
    &&& t.reply matches Some(r) && r@ == ("Отменили стояние.")@
}

/// A cancel with no session open: only a notice is sent, and the dialogue
/// reset.
pub open spec fn spec_cancel_idle(t: Transition) -> bool {
    &&& t.next == State::Start
    &&& t.live == LiveChange::Keep
    &&& !t.pin_notice
    &&& !t.unpin
    &&& t.close is None
    &&& t.classify is None
    &&& t.reply matches Some(r) && r@ == ("Нет активного стояния для отмены.")@
}

/// A shared conversation becomes the tracked target and is echoed back.
pub open spec fn spec_chat_shared_transition(chat_id: i64, t: Transition) -> bool {
    &&& t.next == (State::StandingChoice { chat_id })
    &&& t.live == LiveChange::Keep
    &&& !t.pin_notice
    &&& !t.unpin
    &&& t.close is None
    &&& t.classify is None
    &&& t.reply matches Some(r) && r@ == ("Текущий чат: ")@ + spec_dec_int(chat_id as int)
}

/// Input that no state handles: only a usage notice is sent.
pub open spec fn spec_invalid_transition(old_state: State, t: Transition) -> bool {
    &&& t.next == old_state
    &&& t.live == LiveChange::Keep
    &&& !t.pin_notice
    &&& !t.unpin
    &&& t.close is None
    &&& t.classify is None
    &&& t.reply matches Some(r) && r@ == ("Unable to handle the message. Type /help to see the usage.")@
}

/// What `step` does for every state and event.
pub open spec fn spec_step(old_state: State, ev: Event, t: Transition) -> bool {
    match ev {
        Event::ChatShared { chat_id } => spec_chat_shared_transition(chat_id, t),
        Event::Text { text, date } => match old_state {
            State::StandingChoice { chat_id } => if text@ == ("СТОИМ БРАТЬЯ")@ {
                spec_open_transition(chat_id, date, t)
            } else {
                spec_keep_state(old_state, t)
            },
            State::ReceiveStandingCommand { chat_id, timestamp } => if text@ == ("СИДИМ")@ {
                spec_close_transition(chat_id, timestamp, date, t)
            } else {
                spec_classify_transition(old_state, text@, t)
            },
            _ => spec_invalid_transition(old_state, t),
        },
        Event::Sticker { chat_id, unique_id, date } => match old_state {
            State::ReceiveStandingCommand { chat_id: session_chat, timestamp } => if spec_is_sit_sticker(
                unique_id@,
            ) {
                spec_close_transition(session_chat, timestamp, date, t)
            } else {
                spec_status_transition(old_state, timestamp, date, t)
            },
            _ => if unique_id@ == ("AgADUW0AAk1IgUo")@ {
                spec_open_transition(chat_id, date, t)
            } else {
                spec_keep_state(old_state, t)
            },
        },
        Event::Classified { positive, date } => match old_state {
            State::ReceiveStandingCommand { chat_id, timestamp } => if positive == Some(true) {
                spec_close_transition(chat_id, timestamp, date, t)
            } else {
                spec_keep_state(old_state, t)
            },
            _ => spec_keep_state(old_state, t),
        },
        Event::Cancel => match old_state {
            State::ReceiveStandingCommand { .. } => spec_cancel_open(t),
            _ => spec_cancel_idle(t),
        },
    }
}

fn keep_state(old_state: &State) -> (t: Transition)
    ensures
        spec_keep_state(*old_state, t),
{
    Transition {
        next: old_state.clone(),
        live: LiveChange::Keep,
        pin_notice: false,
        unpin: false,
        close: None,
        classify: None,
        reply: None,
    }
}

/// The user shared a conversation: it becomes the tracked target, from
/// any state.
pub fn chat_shared(chat_id: i64) -> (t: Transition)
    ensures
        spec_chat_shared_transition(chat_id, t),
{
    let mut reply = String::from_str("Текущий чат: ");
    let id_digits = dec_string_i64(chat_id);
    reply.append(id_digits.as_str());
    Transition {
        next: State::StandingChoice { chat_id },
        live: LiveChange::Keep,
        pin_notice: false,
        unpin: false,
        close: None,
        classify: None,
        reply: Some(reply),
    }
}

fn open_session(chat_id: i64, date: i64) -> (t: Transition)
    ensures
        spec_open_transition(chat_id, date, t),
{
    Transition {
        next: State::ReceiveStandingCommand { chat_id, timestamp: date },
        live: LiveChange::Install { chat_id, start: date },
        pin_notice: true,
        unpin: false,
        close: None,
        classify: None,
        reply: None,
    }
}

fn close_session(chat_id: i64, start: i64, end: i64) -> (t: Transition)
    ensures
        spec_close_transition(chat_id, start, end, t),
{
    let mut reply = String::from_str("ПОСТОЯЛИ ");
    let elapsed = get_time_difference(start, end);
    reply.append(elapsed.as_str());
    Transition {
        next: State::StandingChoice { chat_id },
        live: LiveChange::Clear,
        pin_notice: false,
        unpin: true,
        close: Some(CloseRecord { chat_id, start, end }),
        classify: None,
        reply: Some(reply),
    }
}

/// A confirmation phrase while a target is chosen opens a session; any
/// other text is ignored.
pub fn standing_choice(chat_id: i64, text: &String, date: i64, old_state: &State) -> (t: Transition)
    requires
        *old_state == (State::StandingChoice { chat_id }),
    ensures
        text@ == ("СТОИМ БРАТЬЯ")@ ==> spec_open_transition(chat_id, date, t),
        text@ != ("СТОИМ БРАТЬЯ")@ ==> spec_keep_state(*old_state, t),
{
    if str_eq(text.as_str(), confirm_phrase()) {
        open_session(chat_id, date)
    } else {
        keep_state(old_state)
    }
}

/// The exact close phrase during an open session closes it; other text is
/// handed to the classifier.
pub fn receive_sit_command(
    chat_id: i64,
    timestamp: i64,
    text: &String,
    date: i64,
    old_state: &State,
) -> (t: Transition)
    requires
        *old_state == (State::ReceiveStandingCommand { chat_id, timestamp }),
    ensures
        text@ == ("СИДИМ")@ ==> spec_close_transition(chat_id, timestamp, date, t),
        text@ != ("СИДИМ")@ ==> spec_classify_transition(*old_state, text@, t),
{
    if str_eq(text.as_str(), close_phrase()) {
        close_session(chat_id, timestamp, date)
    } else {
        Transition {
            next: old_state.clone(),
            live: LiveChange::Keep,
            pin_notice: false,
            unpin: false,
            close: None,
            classify: Some(text.clone()),
            reply: None,
        }
    }
}

/// A classifier verdict during an open session: only a positive verdict
/// closes the session; a negative or failed one changes nothing.
pub fn stop_standing(
    chat_id: i64,
    timestamp: i64,
    positive: Option<bool>,
    date: i64,
    old_state: &State,
) -> (t: Transition)
    requires
        *old_state == (State::ReceiveStandingCommand { chat_id, timestamp }),
    ensures
        positive == Some(true) ==> spec_close_transition(chat_id, timestamp, date, t),
        positive != Some(true) ==> spec_keep_state(*old_state, t),
{
    match positive {
        Some(true) => close_session(chat_id, timestamp, date),
        _ => keep_state(old_state),
    }
}

/// A marker during an open session: one from the close allow-set closes
/// the session; any other gets the current elapsed time as a status
/// reply.
pub fn standing_status_handler(
    chat_id: i64,
    timestamp: i64,
    unique_id: &String,
    date: i64,
    old_state: &State,
) -> (t: Transition)
    requires
        *old_state == (State::ReceiveStandingCommand { chat_id, timestamp }),
    ensures
        spec_is_sit_sticker(unique_id@) ==> spec_close_transition(chat_id, timestamp, date, t),
        !spec_is_sit_sticker(unique_id@) ==> spec_status_transition(*old_state, timestamp, date, t),
{
    if is_sit_sticker(unique_id.as_str()) {
        close_session(chat_id, timestamp, date)
    } else {
        let mut reply = String::from_str("СТОИМ ");
        let elapsed = get_time_difference(timestamp, date);
        reply.append(elapsed.as_str());
        Transition {
            next: old_state.clone(),
            live: LiveChange::Keep,
            pin_notice: false,
            unpin: false,
            close: None,
            classify: None,
            reply: Some(reply),
        }
    }
}

/// The session-opening marker outside an open session opens a session;
/// any other marker is ignored.
pub fn start_standing_handler(chat_id: i64, unique_id: &String, date: i64, old_state: &State) -> (t:
    Transition)
    ensures
        unique_id@ == ("AgADUW0AAk1IgUo")@ ==> spec_open_transition(chat_id, date, t),
        unique_id@ != ("AgADUW0AAk1IgUo")@ ==> spec_keep_state(*old_state, t),
{
    if str_eq(unique_id.as_str(), sticker_stand()) {
        open_session(chat_id, date)
    } else {
        keep_state(old_state)
    }
}

/// The explicit cancel command: an open session is abandoned without
/// recording anything; either way the dialogue resets.
pub fn cancel(old_state: &State) -> (t: Transition)
    ensures
        (*old_state matches State::ReceiveStandingCommand { .. }) ==> spec_cancel_open(t),
        !(*old_state matches State::ReceiveStandingCommand { .. }) ==> spec_cancel_idle(t),
{
    match old_state {
        State::ReceiveStandingCommand { .. } => Transition {
            next: State::Start,
            live: LiveChange::Clear,
            pin_notice: false,
            unpin: true,
            close: None,
            classify: None,
            reply: Some(String::from_str("Отменили стояние.")),
        },
        _ => Transition {
            next: State::Start,
            live: LiveChange::Keep,
            pin_notice: false,
            unpin: false,
            close: None,
            classify: None,
            reply: Some(String::from_str("Нет активного стояния для отмены.")),
        },
    }
}

/// Input that the current state gives no meaning: reply with the usage
/// notice.
pub fn invalid_state(old_state: &State) -> (t: Transition)
    ensures
        spec_invalid_transition(*old_state, t),
{
    Transition {
        next: old_state.clone(),
        live: LiveChange::Keep,
        pin_notice: false,
        unpin: false,
        close: None,
        classify: None,
        reply: Some(String::from_str("Unable to handle the message. Type /help to see the usage.")),
    }
}

/// One step of the dialogue: route the event by the current state, as the
/// transition table says.
pub fn step(old_state: &State, ev: &Event) -> (t: Transition)
    ensures
        spec_step(*old_state, *ev, t),
{
    match ev {
        Event::ChatShared { chat_id } => chat_shared(*chat_id),
        Event::Text { text, date } => match old_state {
            State::StandingChoice { chat_id } => standing_choice(*chat_id, text, *date, old_state),
            State::ReceiveStandingCommand { chat_id, timestamp } => receive_sit_command(
                *chat_id,
                *timestamp,
                text,
                *date,
                old_state,
            ),
            _ => invalid_state(old_state),
        },
        Event::Sticker { chat_id, unique_id, date } => match old_state {
            State::ReceiveStandingCommand { chat_id: session_chat, timestamp } => standing_status_handler(
                *session_chat,
                *timestamp,
                unique_id,
                *date,
                old_state,
            ),
            _ => start_standing_handler(*chat_id, unique_id, *date, old_state),
        },
        Event::Classified { positive, date } => match old_state {
            State::ReceiveStandingCommand { chat_id, timestamp } => stop_standing(
                *chat_id,
                *timestamp,
                *positive,
                *date,
                old_state,
            ),
            _ => keep_state(old_state),
        },
        Event::Cancel => cancel(old_state),
    }
}

/// The running-total message sent after a close: the new total stored for
/// the conversation's day.
pub fn total_today_text(total: i64) -> (r: String)
    requires
        0 <= total,
    ensures
        r@ == ("Всего постояли сегодня: ")@ + spec_hms_text(total as int),
{
    let mut s = String::from_str("Всего постояли сегодня: ");
    let hms = total_seconds_to_hms(total);
    s.append(hms.as_str());
    s
}

/// Cancelling while a session is open abandons it: nothing is recorded in
/// the totals store, the live slot is cleared, and the dialogue returns
/// to the idle state.
pub proof fn lemma_cancel_discards_open_session(old_state: State, t: Transition)
    requires
        old_state matches State::ReceiveStandingCommand { .. },
        spec_step(old_state, Event::Cancel, t),
    ensures
        t.close is None,
        t.live == LiveChange::Clear,
        t.next == State::Start,
{
}

/// A classifier failure — or a negative verdict — during an open session
/// never closes it: the state is unchanged, the live slot untouched, and
/// nothing is recorded.
pub proof fn lemma_classifier_failure_keeps_session(
    old_state: State,
    positive: Option<bool>,
    date: i64,
    t: Transition,
)
    requires
        old_state matches State::ReceiveStandingCommand { .. },
        positive != Some(true),
        spec_step(old_state, (Event::Classified { positive, date }), t),
    ensures
        t.next == old_state,
        t.live == LiveChange::Keep,
        t.close is None,
        !t.unpin,
{
}

} // verus!
