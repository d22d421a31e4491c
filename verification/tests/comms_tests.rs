use sendme_egui::comms::{Event, MessageDisplay, MessageOut, MessageType, CHANNEL_CAPACITY};

fn line(text: &str, mtype: MessageType) -> Event {
    Event::Message(MessageDisplay { text: text.to_string(), mtype })
}

#[test]
fn channels_hold_sixteen() {
    assert_eq!(CHANNEL_CAPACITY, 16);
}

#[test]
fn a_new_outbox_is_empty() {
    let mut mess = MessageOut::new();
    assert_eq!(mess.len(), 0);
    assert!(mess.take().is_empty());
}

#[test]
fn message_lines_carry_their_kind() {
    let mut mess = MessageOut::new();
    mess.info("one");
    mess.correct("two");
    mess.error("three");
    assert_eq!(mess.len(), 3);
    assert_eq!(
        mess.take(),
        vec![
            line("one", MessageType::Info),
            line("two", MessageType::Good),
            line("three", MessageType::Error),
        ]
    );
}

#[test]
fn finished_is_a_line_and_the_event() {
    let mut mess = MessageOut::new();
    mess.finished();
    assert_eq!(mess.take(), vec![line("Finished...", MessageType::Good), Event::Finished]);
}

#[test]
fn progress_events_name_their_track() {
    let mut mess = MessageOut::new();
    mess.progress("a.txt", 3, 10);
    mess.complete("a.txt");
    mess.progress_finish("a.txt");
    assert_eq!(
        mess.take(),
        vec![
            Event::Progress(("a.txt".to_string(), 3, 10)),
            Event::ProgressFinished("a.txt".to_string()),
            Event::ProgressComplete("a.txt".to_string()),
        ]
    );
}

#[test]
fn timer_and_ticket_events_are_queued() {
    let mut mess = MessageOut::new();
    mess.tick(61);
    mess.reset_timer();
    mess.send_ticket("blobabc".to_string());
    assert_eq!(
        mess.take(),
        vec![Event::Tick(61), Event::StopTick, Event::SendTicket("blobabc".to_string())]
    );
}

#[test]
fn take_empties_the_outbox_and_keeps_the_order() {
    let mut mess = MessageOut::new();
    mess.tick(1);
    mess.tick(2);
    assert_eq!(mess.take(), vec![Event::Tick(1), Event::Tick(2)]);
    assert_eq!(mess.len(), 0);
    mess.tick(3);
    assert_eq!(mess.take(), vec![Event::Tick(3)]);
}
