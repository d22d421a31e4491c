use sendme_egui::comms::{Command, Event, MessageDisplay, MessageType};
use sendme_egui::progress::ProgressBar;
use sendme_egui::ui::{format_seconds_as_hms, AppMode, AppState, Config, Pass, MESSAGE_MAX};

fn config() -> Config {
    Config::new("/home/u/Downloads", "/home/u/.local/share")
}

fn message(text: &str, mtype: MessageType) -> MessageDisplay {
    MessageDisplay { text: text.to_string(), mtype }
}

#[test]
fn elapsed_time_has_two_digits_each() {
    assert_eq!(format_seconds_as_hms(0), "[00:00:00]");
    assert_eq!(format_seconds_as_hms(59), "[00:00:59]");
    assert_eq!(format_seconds_as_hms(60), "[00:01:00]");
    assert_eq!(format_seconds_as_hms(3723), "[01:02:03]");
    assert_eq!(format_seconds_as_hms(86399), "[23:59:59]");
    assert_eq!(format_seconds_as_hms(360_000), "[100:00:00]");
    assert_eq!(format_seconds_as_hms(u64::MAX), "[5124095576030431:00:15]");
}

#[test]
fn first_run_settings_lie_below_the_user_directories() {
    let config = config();
    assert!(config.dark_mode);
    assert_eq!(config.download_path, "/home/u/Downloads/sendme");
    assert_eq!(config.store_path, "/home/u/.local/share/sendme-egui/blob_data");
}

#[test]
fn modes_have_their_labels() {
    assert_eq!(AppMode::Init.label(), "Init");
    assert_eq!(AppMode::Idle.label(), "Idle");
    assert_eq!(AppMode::Send.label(), "Send");
    assert_eq!(AppMode::SendProgress.label(), "Send Running...");
    assert_eq!(AppMode::FetchProgess.label(), "Fetch Running...");
    assert_eq!(AppMode::Finished.label(), "Finished");
    assert_eq!(AppMode::Config.label(), "Config");
}

#[test]
fn a_new_interface_is_initialising() {
    let state = AppState::new(config());
    assert_eq!(state.mode, AppMode::Init);
    assert_eq!(state.picked_path, None);
    assert_eq!(state.receiver_ticket, "");
    assert_eq!(state.send_ticket, None);
    assert_eq!(state.elapsed, None);
    assert!(state.messages.is_empty());
    assert_eq!(state.progress.len(), 0);
}

#[test]
fn the_mode_moves_on_each_pass() {
    let mut state = AppState::new(config());
    for (mode, next, enabled) in [
        (AppMode::Init, AppMode::Idle, true),
        (AppMode::Idle, AppMode::Idle, true),
        (AppMode::Send, AppMode::Send, true),
        (AppMode::SendProgress, AppMode::SendProgress, false),
        (AppMode::FetchProgess, AppMode::FetchProgess, false),
        (AppMode::Finished, AppMode::Idle, true),
        (AppMode::Config, AppMode::Config, false),
    ] {
        state.mode = mode;
        assert_eq!(state.advance(), enabled);
        assert_eq!(state.mode, next);
    }
}

#[test]
fn events_change_the_state() {
    let mut state = AppState::new(config());
    state.apply(Event::Message(message("hello", MessageType::Info)));
    state.apply(Event::Progress(("a.txt".to_string(), 3, 10)));
    state.apply(Event::Progress(("b".to_string(), 1, 2)));
    state.apply(Event::ProgressFinished("a.txt".to_string()));
    state.apply(Event::ProgressComplete("b".to_string()));
    state.apply(Event::SendTicket("blobxyz".to_string()));
    state.apply(Event::Tick(12));
    assert_eq!(state.messages, vec![message("hello", MessageType::Info)]);
    assert_eq!(
        state.progress.bars(),
        &vec![ProgressBar { name: "a.txt".to_string(), current: 3, total: 10, complete: true }]
    );
    assert_eq!(state.send_ticket, Some("blobxyz".to_string()));
    assert_eq!(state.elapsed, Some(12));
    state.apply(Event::StopTick);
    assert_eq!(state.elapsed, None);
    state.apply(Event::Finished);
    assert_eq!(state.mode, AppMode::Finished);
}

#[test]
fn the_oldest_line_makes_room_in_a_full_log() {
    let mut state = AppState::new(config());
    for i in 0..=MESSAGE_MAX {
        state.apply(Event::Message(message(&format!("m{}", i), MessageType::Info)));
    }
    assert_eq!(state.messages.len(), MESSAGE_MAX + 1);
    assert_eq!(state.messages[0].text, "m0");
    state.apply(Event::Message(message("next", MessageType::Info)));
    assert_eq!(state.messages.len(), MESSAGE_MAX + 1);
    assert_eq!(state.messages[0].text, "m1");
    assert_eq!(state.messages[MESSAGE_MAX].text, "next");
}

#[test]
fn an_error_ends_the_mode_of_a_running_transfer() {
    for mode in [AppMode::SendProgress, AppMode::FetchProgess] {
        let mut state = AppState::new(config());
        state.mode = mode;
        state.apply(Event::Message(message("fine", MessageType::Good)));
        assert_eq!(state.mode, mode);
        state.apply(Event::Message(message("Empty Blob", MessageType::Error)));
        assert_eq!(state.mode, AppMode::Idle);
        assert_eq!(state.messages.len(), 2);
    }
    let mut state = AppState::new(config());
    state.mode = AppMode::Config;
    state.apply(Event::Message(message("broken", MessageType::Error)));
    assert_eq!(state.mode, AppMode::Config);
}

#[test]
fn a_pass_takes_the_events_that_wait() {
    let (tx, rx) = async_channel::bounded(16);
    tx.try_send(Event::Tick(1)).unwrap();
    tx.try_send(Event::Progress(("Download".to_string(), 5, 9))).unwrap();
    tx.try_send(Event::Finished).unwrap();
    let mut state = AppState::new(config());
    state.mode = AppMode::FetchProgess;
    let pass = state.update(&rx);
    assert_eq!(pass, Pass { send_enabled: true, closed: false });
    assert_eq!(state.mode, AppMode::Idle);
    assert_eq!(state.elapsed, Some(1));
    assert_eq!(state.progress.len(), 1);
    assert!(rx.is_empty());
    let pass = state.update(&rx);
    assert_eq!(pass, Pass { send_enabled: true, closed: false });
    assert_eq!(state.elapsed, Some(1));
}

#[test]
fn a_pass_takes_no_more_than_the_channel_holds() {
    let (tx, rx) = async_channel::unbounded();
    for i in 0..20 {
        tx.try_send(Event::Tick(i)).unwrap();
    }
    let mut state = AppState::new(config());
    state.update(&rx);
    assert_eq!(state.elapsed, Some(15));
    assert_eq!(rx.len(), 4);
    state.update(&rx);
    assert_eq!(state.elapsed, Some(19));
    assert!(rx.is_empty());
}

#[test]
fn a_pass_notices_that_the_worker_is_gone() {
    let (tx, rx) = async_channel::bounded(16);
    tx.try_send(Event::Tick(4)).unwrap();
    drop(tx);
    let mut state = AppState::new(config());
    let pass = state.update(&rx);
    assert_eq!(pass, Pass { send_enabled: true, closed: true });
    assert_eq!(state.elapsed, Some(4));
    assert_eq!(state.mode, AppMode::Idle);
}

#[test]
fn reset_clears_ticket_log_and_bars() {
    let mut state = AppState::new(config());
    state.mode = AppMode::FetchProgess;
    state.receiver_ticket = "blobabc".to_string();
    state.picked_path = Some("/x".to_string());
    state.apply(Event::Message(message("hello", MessageType::Info)));
    state.apply(Event::Progress(("a".to_string(), 1, 2)));
    state.apply(Event::Tick(3));
    state.reset();
    assert_eq!(state.mode, AppMode::Idle);
    assert_eq!(state.receiver_ticket, "");
    assert!(state.messages.is_empty());
    assert_eq!(state.progress.len(), 0);
    assert_eq!(state.picked_path, Some("/x".to_string()));
    assert_eq!(state.elapsed, Some(3));
}

#[test]
fn picking_leads_to_the_send_mode() {
    let mut state = AppState::new(config());
    state.pick(Some("/home/u/dir".to_string()));
    assert_eq!(state.mode, AppMode::Send);
    assert_eq!(state.picked_path, Some("/home/u/dir".to_string()));
    state.mode = AppMode::Idle;
    state.pick(None);
    assert_eq!(state.mode, AppMode::Send);
    assert_eq!(state.picked_path, Some("/home/u/dir".to_string()));
}

#[test]
fn a_send_starts_with_a_picked_path() {
    let mut state = AppState::new(config());
    state.mode = AppMode::Send;
    assert_eq!(state.start_send(), None);
    assert_eq!(state.mode, AppMode::Send);
    state.pick(Some("/home/u/dir".to_string()));
    state.apply(Event::Progress(("old".to_string(), 1, 2)));
    assert_eq!(state.start_send(), Some(Command::Send("/home/u/dir".to_string())));
    assert_eq!(state.mode, AppMode::SendProgress);
    assert_eq!(state.progress.len(), 0);
    assert_eq!(state.start_send(), None);
    assert_eq!(state.mode, AppMode::SendProgress);
}

#[test]
fn a_fetch_goes_to_the_download_directory_or_a_picked_one() {
    let mut state = AppState::new(config());
    state.receiver_ticket = "blobabc".to_string();
    state.apply(Event::Progress(("old".to_string(), 1, 2)));
    assert_eq!(
        state.start_fetch(None),
        Command::Fetch(("blobabc".to_string(), "/home/u/Downloads/sendme".to_string()))
    );
    assert_eq!(state.mode, AppMode::FetchProgess);
    assert_eq!(state.picked_path, None);
    assert_eq!(state.progress.len(), 0);
    assert_eq!(
        state.start_fetch(Some("/mnt/usb".to_string())),
        Command::Fetch(("blobabc".to_string(), "/mnt/usb".to_string()))
    );
    assert_eq!(state.picked_path, Some("/mnt/usb".to_string()));
}

#[test]
fn settings_open_and_close() {
    let mut state = AppState::new(config());
    state.open_config();
    assert_eq!(state.mode, AppMode::Config);
    state.save_config();
    assert_eq!(state.mode, AppMode::Idle);
}
