use standing_tracker::dates::Date;
use standing_tracker::openrouter::reply_indicates_sit;
use standing_tracker::periodic_updates::{periodic_update_msg, MessageRef, UpdateData};
use standing_tracker::session::{
    cancel, chat_shared, step, total_today_text, CloseRecord, Event, LiveChange, State, Transition,
};
use standing_tracker::total_management::Total;

fn open_state() -> State {
    State::ReceiveStandingCommand { chat_id: 1, timestamp: 1000 }
}

fn assert_no_effects(t: &Transition) {
    assert_eq!(t.live, LiveChange::Keep);
    assert!(!t.pin_notice);
    assert!(!t.unpin);
    assert!(t.close.is_none());
    assert!(t.classify.is_none());
    assert!(t.reply.is_none());
}

#[test]
fn test_confirm_phrase_opens_session() {
    let state = State::StandingChoice { chat_id: 1 };
    let ev = Event::Text { text: "СТОИМ БРАТЬЯ".to_string(), date: 1000 };
    let t = step(&state, &ev);
    assert_eq!(t.next, State::ReceiveStandingCommand { chat_id: 1, timestamp: 1000 });
    assert_eq!(t.live, LiveChange::Install { chat_id: 1, start: 1000 });
    assert!(t.pin_notice);
    assert!(t.close.is_none());
}

#[test]
fn test_other_text_while_choosing_is_ignored() {
    let state = State::StandingChoice { chat_id: 1 };
    let ev = Event::Text { text: "привет".to_string(), date: 1000 };
    let t = step(&state, &ev);
    assert_eq!(t.next, state);
    assert_no_effects(&t);
}

#[test]
fn test_open_close_scenario() {
    // Open at t=1000, close at t=1190: the elapsed message reports
    // 3 minutes 10 seconds and the day's stored total becomes 190.
    let state = State::StandingChoice { chat_id: 1 };
    let t = step(&state, &Event::Text { text: "СТОИМ БРАТЬЯ".to_string(), date: 1000 });
    let open = t.next;
    let t = step(&open, &Event::Text { text: "СИДИМ".to_string(), date: 1190 });
    assert_eq!(t.next, State::StandingChoice { chat_id: 1 });
    assert_eq!(t.live, LiveChange::Clear);
    assert!(t.unpin);
    assert_eq!(t.close, Some(CloseRecord { chat_id: 1, start: 1000, end: 1190 }));
    assert_eq!(t.reply.as_deref(), Some("ПОСТОЯЛИ 3 минут 10 секунд"));

    let mut total = Total::new();
    let rec = t.close.unwrap();
    let new_total = total.record_close(rec.chat_id, rec.start, rec.end).unwrap();
    assert_eq!(new_total, 190);
    assert_eq!(total.get_total_timestamp_day(1000, 1), Some(190));
    assert_eq!(total_today_text(new_total), "Всего постояли сегодня: 0 часов 3 минут 10 секунд");
}

#[test]
fn test_freeform_text_goes_to_classifier() {
    let t = step(&open_state(), &Event::Text { text: "чилим".to_string(), date: 2000 });
    assert_eq!(t.next, open_state());
    assert_eq!(t.live, LiveChange::Keep);
    assert!(t.close.is_none());
    assert_eq!(t.classify.as_deref(), Some("чилим"));
    assert!(t.reply.is_none());
}

#[test]
fn test_classifier_positive_closes() {
    let t = step(&open_state(), &Event::Classified { positive: Some(true), date: 1300 });
    assert_eq!(t.next, State::StandingChoice { chat_id: 1 });
    assert_eq!(t.live, LiveChange::Clear);
    assert_eq!(t.close, Some(CloseRecord { chat_id: 1, start: 1000, end: 1300 }));
}

#[test]
fn test_classifier_failure_keeps_session() {
    // A classification failure never closes the session.
    let t = step(&open_state(), &Event::Classified { positive: None, date: 1300 });
    assert_eq!(t.next, open_state());
    assert_no_effects(&t);
    let t = step(&open_state(), &Event::Classified { positive: Some(false), date: 1300 });
    assert_eq!(t.next, open_state());
    assert_no_effects(&t);
}

#[test]
fn test_cancel_discards_open_session() {
    let t = cancel(&open_state());
    assert_eq!(t.next, State::Start);
    assert_eq!(t.live, LiveChange::Clear);
    assert!(t.unpin);
    assert!(t.close.is_none());
    assert_eq!(t.reply.as_deref(), Some("Отменили стояние."));
}

#[test]
fn test_cancel_without_session() {
    let t = cancel(&State::Start);
    assert_eq!(t.next, State::Start);
    assert_eq!(t.live, LiveChange::Keep);
    assert!(!t.unpin);
    assert!(t.close.is_none());
    assert_eq!(t.reply.as_deref(), Some("Нет активного стояния для отмены."));
}

#[test]
fn test_sit_sticker_closes() {
    let ev = Event::Sticker { chat_id: 1, unique_id: "AgAD5WYAAtxw-Uo".to_string(), date: 1200 };
    let t = step(&open_state(), &ev);
    assert_eq!(t.next, State::StandingChoice { chat_id: 1 });
    assert_eq!(t.close, Some(CloseRecord { chat_id: 1, start: 1000, end: 1200 }));
}

#[test]
fn test_other_sticker_reports_status() {
    let ev = Event::Sticker { chat_id: 1, unique_id: "AgADother".to_string(), date: 1010 };
    let t = step(&open_state(), &ev);
    assert_eq!(t.next, open_state());
    assert!(t.close.is_none());
    assert_eq!(t.reply.as_deref(), Some("СТОИМ 0 минут 10 секунд"));
}

#[test]
fn test_stand_sticker_opens() {
    let ev = Event::Sticker { chat_id: 5, unique_id: "AgADUW0AAk1IgUo".to_string(), date: 777 };
    let t = step(&State::Start, &ev);
    assert_eq!(t.next, State::ReceiveStandingCommand { chat_id: 5, timestamp: 777 });
    assert_eq!(t.live, LiveChange::Install { chat_id: 5, start: 777 });
    assert!(t.pin_notice);
}

#[test]
fn test_chat_shared_sets_target() {
    let t = chat_shared(777);
    assert_eq!(t.next, State::StandingChoice { chat_id: 777 });
    assert_eq!(t.reply.as_deref(), Some("Текущий чат: 777"));
    let t = step(&open_state(), &Event::ChatShared { chat_id: -100123 });
    assert_eq!(t.next, State::StandingChoice { chat_id: -100123 });
    assert_eq!(t.reply.as_deref(), Some("Текущий чат: -100123"));
}

#[test]
fn test_invalid_text_at_top_level() {
    let t = step(&State::Start, &Event::Text { text: "что".to_string(), date: 0 });
    assert_eq!(t.next, State::Start);
    assert_eq!(t.reply.as_deref(), Some("Unable to handle the message. Type /help to see the usage."));
}

#[test]
fn test_reply_indicates_sit() {
    assert!(reply_indicates_sit("1"));
    assert!(reply_indicates_sit(" 1\n"));
    assert!(reply_indicates_sit("\t1 "));
    assert!(!reply_indicates_sit("0"));
    assert!(!reply_indicates_sit(""));
    assert!(!reply_indicates_sit(" "));
    assert!(!reply_indicates_sit("1 1"));
    assert!(!reply_indicates_sit("11"));
}

#[test]
fn test_periodic_tick() {
    let msg = MessageRef { chat_id: 1, message_id: 42 };
    let data = UpdateData(Some(msg), 1000);
    let (target, text) = periodic_update_msg(&data, 1190).unwrap();
    assert_eq!(target, msg);
    assert_eq!(text, "Стоим 3 минут 10 секунд");
    assert!(periodic_update_msg(&UpdateData(None, 1000), 1190).is_none());
}

#[test]
fn test_default_state_is_start() {
    assert_eq!(State::default(), State::Start);
}

#[test]
fn test_store_helpers_use_valid_dates() {
    // A date built by hand and one from a timestamp agree.
    let d = Date { year: 1970, month: 1, day: 1 };
    let mut total = Total::new();
    total.upsert_add(1, &d, 190).unwrap();
    assert_eq!(total.get_total_timestamp_day(1000, 1), Some(190));
}
