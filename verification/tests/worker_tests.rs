use sendme_egui::comms::{Command, Event, MessageDisplay, MessageType};
use sendme_egui::error::TransferError;
use sendme_egui::timer::TimerCommands;
use sendme_egui::worker::{Meanwhile, Worker, WorkerAction};

fn line(text: &str, mtype: MessageType) -> Event {
    Event::Message(MessageDisplay { text: text.to_string(), mtype })
}

#[test]
fn setup_is_answered_with_ready() {
    let mut worker = Worker::new();
    assert_eq!(worker.handle_command(Command::Setup), (WorkerAction::ListTags, None));
    assert_eq!(worker.mess.take(), vec![line("Ready...", MessageType::Good)]);
}

#[test]
fn a_send_runs_under_the_timer() {
    let mut worker = Worker::new();
    assert_eq!(
        worker.handle_command(Command::Send("/home/u/dir".to_string())),
        (WorkerAction::Send("/home/u/dir".to_string()), Some(TimerCommands::Start))
    );
    assert_eq!(worker.mess.len(), 0);
}

#[test]
fn a_fetch_runs_under_the_timer() {
    let mut worker = Worker::new();
    assert_eq!(
        worker.handle_command(Command::Fetch(("blobabc".to_string(), "/d".to_string()))),
        (
            WorkerAction::Fetch { ticket: "blobabc".to_string(), target: "/d".to_string() },
            Some(TimerCommands::Start)
        )
    );
    assert_eq!(worker.mess.len(), 0);
}

#[test]
fn a_cancel_sets_nothing_going() {
    let mut worker = Worker::new();
    assert_eq!(worker.handle_command(Command::CancelTest), (WorkerAction::Idle, None));
    assert_eq!(worker.mess.len(), 0);
}

#[test]
fn a_transfer_that_succeeded_is_closed_with_finished() {
    let mut worker = Worker::new();
    assert_eq!(worker.transfer_done(Ok(())), TimerCommands::Reset);
    assert_eq!(
        worker.mess.take(),
        vec![line("Finished...", MessageType::Good), Event::Finished]
    );
}

#[test]
fn a_transfer_that_failed_is_closed_with_its_error() {
    let mut worker = Worker::new();
    assert_eq!(worker.transfer_done(Err(TransferError::EmptyTicket)), TimerCommands::Reset);
    assert_eq!(
        worker.transfer_done(Err(TransferError::ExportConflict("/d/a.txt".to_string()))),
        TimerCommands::Reset
    );
    assert_eq!(
        worker.mess.take(),
        vec![
            line("Empty Blob", MessageType::Error),
            line("/d/a.txt already exists", MessageType::Error),
        ]
    );
}

#[test]
fn the_worker_goes_on_after_a_failure() {
    let mut worker = Worker::new();
    worker.handle_command(Command::Fetch((String::new(), "/d".to_string())));
    worker.transfer_done(Err(TransferError::EmptyTicket));
    assert_eq!(
        worker.handle_command(Command::Send("/x".to_string())),
        (WorkerAction::Send("/x".to_string()), Some(TimerCommands::Start))
    );
    worker.transfer_done(Ok(()));
    assert_eq!(worker.mess.len(), 3);
}

#[test]
fn a_failed_command_is_shown() {
    let mut worker = Worker::new();
    worker.command_failed(&TransferError::ChannelClosed);
    assert_eq!(worker.mess.take(), vec![line("channel closed", MessageType::Error)]);
}

#[test]
fn a_cancel_during_a_transfer_stops_it() {
    assert_eq!(Worker::during_transfer(Some(Command::CancelTest)), Meanwhile::Cancel);
}

#[test]
fn other_commands_wait_for_the_end_of_a_transfer() {
    assert_eq!(Worker::during_transfer(Some(Command::Setup)), Meanwhile::Queue(Command::Setup));
    assert_eq!(
        Worker::during_transfer(Some(Command::Send("/x".to_string()))),
        Meanwhile::Queue(Command::Send("/x".to_string()))
    );
    assert_eq!(
        Worker::during_transfer(Some(Command::Fetch(("blobabc".to_string(), "/d".to_string())))),
        Meanwhile::Queue(Command::Fetch(("blobabc".to_string(), "/d".to_string())))
    );
}

#[test]
fn a_closed_channel_during_a_transfer_stops_it_and_the_listening() {
    assert_eq!(Worker::during_transfer(None), Meanwhile::Closed);
}
