use sendme_egui::collection::{entries, ImportedFile};
use sendme_egui::comms::{Event, MessageDisplay, MessageOut, MessageType};
use sendme_egui::error::TransferError;
use sendme_egui::offer::{
    data_sources, import, send, AddItem, DataSource, Import, ImportAction, ImportInput,
    ImportPhase, ImportStep, ImportTrack, SendAction, SendInput, SendPhase, SendState, WalkEntry,
};
use sendme_egui::paths::{split_name, PathPart};
use sendme_egui::tags::TagKind;
use sendme_egui::ticket::{read_ticket, Peer};

fn parts(name: &str) -> Vec<PathPart> {
    split_name(name).into_iter().map(PathPart::Normal).collect()
}

fn found(is_file: bool, relative: &str, path: &str) -> WalkEntry {
    WalkEntry { is_file, relative: parts(relative), path: path.to_string() }
}

fn source(name: &str, path: &str) -> DataSource {
    DataSource { name: name.to_string(), path: path.to_string() }
}

fn line(text: &str, mtype: MessageType) -> Event {
    Event::Message(MessageDisplay { text: text.to_string(), mtype })
}

fn address() -> iroh::EndpointAddr {
    iroh::EndpointAddr::new(iroh::SecretKey::from_bytes(&[3; 32]).public())
}

#[test]
fn only_regular_files_become_sources() {
    let walk = vec![
        found(false, "dir", "/home/u/dir"),
        found(true, "dir/a.txt", "/home/u/dir/a.txt"),
        found(false, "dir/b", "/home/u/dir/b"),
        found(false, "dir/link", "/home/u/dir/link"),
        found(true, "dir/b/c.txt", "/home/u/dir/b/c.txt"),
    ];
    assert_eq!(
        data_sources(&walk),
        Ok(vec![
            source("dir/a.txt", "/home/u/dir/a.txt"),
            source("dir/b/c.txt", "/home/u/dir/b/c.txt"),
        ])
    );
}

#[test]
fn a_walk_without_files_gives_no_sources() {
    assert_eq!(data_sources(&vec![]), Ok(vec![]));
    assert_eq!(data_sources(&vec![found(false, "dir", "/dir")]), Ok(vec![]));
}

#[test]
fn a_file_with_an_unsafe_component_fails_the_walk() {
    let walk = vec![
        found(true, "dir/a.txt", "/dir/a.txt"),
        WalkEntry {
            is_file: true,
            relative: vec![PathPart::Normal("dir".to_string()), PathPart::Normal("x\\y".to_string())],
            path: "/dir/x\\y".to_string(),
        },
        WalkEntry {
            is_file: true,
            relative: vec![PathPart::ParentDir],
            path: "/".to_string(),
        },
    ];
    assert_eq!(
        data_sources(&walk),
        Err(TransferError::InvalidPathComponent("x\\y".to_string()))
    );
}

#[test]
fn an_unsafe_component_of_a_directory_is_passed_over() {
    let walk = vec![
        WalkEntry { is_file: false, relative: vec![PathPart::RootDir], path: "/".to_string() },
        found(true, "a", "/a"),
    ];
    assert_eq!(data_sources(&walk), Ok(vec![source("a", "/a")]));
}

#[test]
fn reports_on_a_file_become_events_on_its_track() {
    let mut track = ImportTrack::new("b/c.txt".to_string());
    let mut mess = MessageOut::new();
    assert_eq!(track.on_item(AddItem::Size(20), &mut mess), ImportStep::Continue);
    assert_eq!(track.size, 20);
    assert_eq!(track.on_item(AddItem::CopyProgress(8), &mut mess), ImportStep::Continue);
    assert_eq!(track.on_item(AddItem::CopyProgress(20), &mut mess), ImportStep::Continue);
    assert_eq!(track.on_item(AddItem::CopyDone, &mut mess), ImportStep::Continue);
    assert_eq!(track.on_item(AddItem::OutboardProgress(20), &mut mess), ImportStep::Continue);
    assert_eq!(
        track.on_item(AddItem::Done([2; 32]), &mut mess),
        ImportStep::Finished(ImportedFile { name: "b/c.txt".to_string(), hash: [2; 32], size: 20 })
    );
    assert_eq!(
        mess.take(),
        vec![
            Event::Progress(("b/c.txt".to_string(), 0, 20)),
            Event::Progress(("b/c.txt".to_string(), 8, 20)),
            Event::Progress(("b/c.txt".to_string(), 20, 20)),
            Event::ProgressFinished("b/c.txt".to_string()),
            Event::Progress(("b/c.txt".to_string(), 20, 20)),
            Event::ProgressComplete("b/c.txt".to_string()),
        ]
    );
}

#[test]
fn a_failure_on_one_file_fails_the_import() {
    let mut track = ImportTrack::new("a.txt".to_string());
    let mut mess = MessageOut::new();
    assert_eq!(
        track.on_item(AddItem::Error("permission denied".to_string()), &mut mess),
        ImportStep::Failed(TransferError::StreamError(
            "error importing a.txt: permission denied".to_string()
        ))
    );
    assert_eq!(mess.len(), 0);
    assert_eq!(
        track.on_end(),
        TransferError::StreamError("import stream ended without a tag".to_string())
    );
}

#[test]
fn progress_before_the_size_is_known_counts_against_zero() {
    let mut track = ImportTrack::new("a".to_string());
    let mut mess = MessageOut::new();
    track.on_item(AddItem::CopyProgress(5), &mut mess);
    assert_eq!(mess.take(), vec![Event::Progress(("a".to_string(), 5, 0))]);
}

#[test]
fn importing_a_directory_gives_a_sorted_collection() {
    let mut state = Import::new();
    assert!(matches!(import(&mut state, ImportInput::Start), ImportAction::Walk));
    assert_eq!(state.phase, ImportPhase::Walking);
    let walk = vec![
        found(false, "dir", "/p/dir"),
        found(false, "dir/b", "/p/dir/b"),
        found(true, "dir/b/c.txt", "/p/dir/b/c.txt"),
        found(true, "dir/a.txt", "/p/dir/a.txt"),
    ];
    match import(&mut state, ImportInput::Walked(walk)) {
        ImportAction::Add { sources, parallelism } => {
            assert_eq!(
                sources,
                vec![
                    source("dir/b/c.txt", "/p/dir/b/c.txt"),
                    source("dir/a.txt", "/p/dir/a.txt"),
                ]
            );
            assert!(parallelism >= 1);
        }
        other => panic!("{:?}", other),
    }
    assert_eq!(state.phase, ImportPhase::Adding);
    let files = vec![
        ImportedFile { name: "dir/b/c.txt".to_string(), hash: [2; 32], size: 20 },
        ImportedFile { name: "dir/a.txt".to_string(), hash: [1; 32], size: 10 },
    ];
    match import(&mut state, ImportInput::Added(files)) {
        ImportAction::Store(collection) => {
            assert_eq!(
                entries(&collection),
                vec![
                    ("dir/a.txt".to_string(), [1; 32]),
                    ("dir/b/c.txt".to_string(), [2; 32]),
                ]
            );
        }
        other => panic!("{:?}", other),
    }
    assert_eq!(state, Import { phase: ImportPhase::Storing, size: 30 });
    match import(&mut state, ImportInput::Stored([7; 32])) {
        ImportAction::Finish { root, size } => {
            assert_eq!(root, [7; 32]);
            assert_eq!(size, 30);
        }
        other => panic!("{:?}", other),
    }
    assert_eq!(state.phase, ImportPhase::Done);
    assert!(matches!(import(&mut state, ImportInput::Start), ImportAction::Stop));
}

#[test]
fn importing_an_empty_directory_gives_an_empty_collection() {
    let mut state = Import::new();
    import(&mut state, ImportInput::Start);
    match import(&mut state, ImportInput::Walked(vec![found(false, "empty", "/p/empty")])) {
        ImportAction::Add { sources, parallelism } => {
            assert!(sources.is_empty());
            assert!(parallelism >= 1);
        }
        other => panic!("{:?}", other),
    }
    match import(&mut state, ImportInput::Added(vec![])) {
        ImportAction::Store(collection) => assert!(collection.is_empty()),
        other => panic!("{:?}", other),
    }
    assert_eq!(state, Import { phase: ImportPhase::Storing, size: 0 });
    assert!(matches!(
        import(&mut state, ImportInput::Stored([5; 32])),
        ImportAction::Finish { root: _, size: 0 }
    ));
}

#[test]
fn a_missing_source_fails_the_import() {
    let mut state = Import::new();
    import(&mut state, ImportInput::Start);
    match import(&mut state, ImportInput::Missing("/nowhere".to_string())) {
        ImportAction::Fail(e) => assert_eq!(e, TransferError::NotFound("/nowhere".to_string())),
        other => panic!("{:?}", other),
    }
    assert_eq!(state.phase, ImportPhase::Failed);
    assert!(matches!(import(&mut state, ImportInput::Walked(vec![])), ImportAction::Stop));
}

#[test]
fn a_reported_failure_ends_the_import() {
    let mut state = Import::new();
    import(&mut state, ImportInput::Start);
    let cause = TransferError::StreamError("walk failed".to_string());
    match import(&mut state, ImportInput::Failed(cause.clone())) {
        ImportAction::Fail(e) => assert_eq!(e, cause),
        other => panic!("{:?}", other),
    }
    assert_eq!(state.phase, ImportPhase::Failed);
}

#[test]
fn a_cancelled_import_or_send_stops() {
    for phase in [ImportPhase::Start, ImportPhase::Walking, ImportPhase::Adding, ImportPhase::Storing]
    {
        let mut state = Import { phase, size: 0 };
        match import(&mut state, ImportInput::Cancel) {
            ImportAction::Fail(e) => assert_eq!(e, TransferError::Cancelled),
            other => panic!("{:?}", other),
        }
        assert_eq!(state.phase, ImportPhase::Failed);
        assert!(matches!(import(&mut state, ImportInput::Start), ImportAction::Stop));
    }
    for phase in [SendPhase::Start, SendPhase::Importing, SendPhase::Tagging, SendPhase::Binding] {
        let mut state = SendState::new();
        state.phase = phase;
        let mut mess = MessageOut::new();
        assert_eq!(
            send(&mut state, SendInput::Cancel, &mut mess),
            SendAction::Fail(TransferError::Cancelled)
        );
        assert_eq!(state.phase, SendPhase::Failed);
        assert_eq!(send(&mut state, SendInput::Tagged, &mut mess), SendAction::Stop);
        assert_eq!(mess.len(), 0);
    }
    let mut state = Import { phase: ImportPhase::Done, size: 3 };
    assert!(matches!(import(&mut state, ImportInput::Cancel), ImportAction::Stop));
    assert_eq!(state, Import { phase: ImportPhase::Done, size: 3 });
}

#[test]
fn an_unsafe_name_fails_the_import() {
    let mut state = Import::new();
    import(&mut state, ImportInput::Start);
    let walk = vec![WalkEntry {
        is_file: true,
        relative: vec![PathPart::Normal("a".to_string()), PathPart::ParentDir],
        path: "/p/a/..".to_string(),
    }];
    match import(&mut state, ImportInput::Walked(walk)) {
        ImportAction::Fail(e) => {
            assert_eq!(e, TransferError::InvalidPathComponent("..".to_string()))
        }
        other => panic!("{:?}", other),
    }
    assert_eq!(state.phase, ImportPhase::Failed);
}

#[test]
fn an_import_input_out_of_turn_fails_the_import() {
    let mut state = Import::new();
    match import(&mut state, ImportInput::Stored([0; 32])) {
        ImportAction::Fail(e) => {
            assert_eq!(e, TransferError::StreamError("unexpected event".to_string()))
        }
        other => panic!("{:?}", other),
    }
}

#[test]
fn a_send_ends_with_a_ticket_for_the_collection() {
    let mut state = SendState::new();
    let mut mess = MessageOut::new();
    assert_eq!(state.phase, SendPhase::Start);
    assert_eq!(send(&mut state, SendInput::Start, &mut mess), SendAction::Import);
    assert_eq!(
        send(&mut state, SendInput::Imported { root: [7; 32], size: 30 }, &mut mess),
        SendAction::Tag(TagKind::Outgoing)
    );
    assert_eq!(state.root, [7; 32]);
    assert_eq!(state.size, 30);
    assert_eq!(send(&mut state, SendInput::Tagged, &mut mess), SendAction::Bind);
    assert_eq!(send(&mut state, SendInput::Bound(Peer::new(address())), &mut mess), SendAction::Finish);
    assert_eq!(state.phase, SendPhase::Done);
    let events = mess.take();
    assert_eq!(events.len(), 3);
    assert_eq!(events[0], line("30", MessageType::Good));
    assert_eq!(events[1], line("Local endpoint created...", MessageType::Info));
    match &events[2] {
        Event::SendTicket(text) => {
            let ticket = read_ticket(text).unwrap();
            assert_eq!(ticket.hash(), [7; 32]);
            assert!(ticket.is_collection());
            assert_eq!(ticket.blob_ticket().addr(), &address());
            assert_eq!(ticket.peer(), Peer::new(address()).id());
            assert_eq!(ticket.peer(), *address().id.as_bytes());
            assert!(!text.is_empty());
            assert_eq!(&ticket.text(), text);
        }
        other => panic!("{:?}", other),
    }
    assert_eq!(send(&mut state, SendInput::Start, &mut mess), SendAction::Stop);
    assert_eq!(mess.len(), 0);
}

#[test]
fn a_send_of_nothing_still_gives_a_ticket() {
    let mut state = SendState::new();
    let mut mess = MessageOut::new();
    send(&mut state, SendInput::Start, &mut mess);
    send(&mut state, SendInput::Imported { root: [0xee; 32], size: 0 }, &mut mess);
    send(&mut state, SendInput::Tagged, &mut mess);
    assert_eq!(send(&mut state, SendInput::Bound(Peer::new(address())), &mut mess), SendAction::Finish);
    let events = mess.take();
    match events.last() {
        Some(Event::SendTicket(text)) => {
            assert_eq!(read_ticket(text).unwrap().hash(), [0xee; 32])
        }
        other => panic!("{:?}", other),
    }
}

#[test]
fn a_failed_import_gives_no_ticket() {
    let mut state = SendState::new();
    let mut mess = MessageOut::new();
    send(&mut state, SendInput::Start, &mut mess);
    let cause = TransferError::StreamError("error importing a: gone".to_string());
    assert_eq!(
        send(&mut state, SendInput::Failed(cause.clone()), &mut mess),
        SendAction::Fail(cause)
    );
    assert_eq!(state.phase, SendPhase::Failed);
    assert_eq!(send(&mut state, SendInput::Bound(Peer::new(address())), &mut mess), SendAction::Stop);
    assert_eq!(mess.len(), 0);
}

#[test]
fn a_send_input_out_of_turn_fails_the_send() {
    let mut state = SendState::new();
    let mut mess = MessageOut::new();
    assert_eq!(
        send(&mut state, SendInput::Tagged, &mut mess),
        SendAction::Fail(TransferError::StreamError("unexpected event".to_string()))
    );
    assert_eq!(state.phase, SendPhase::Failed);
}

#[test]
fn two_files_give_a_sorted_collection_and_a_ticket() {
    let mut state = Import::new();
    import(&mut state, ImportInput::Start);
    let walk = vec![found(true, "b/c.txt", "/p/b/c.txt"), found(true, "a.txt", "/p/a.txt")];
    let sources = match import(&mut state, ImportInput::Walked(walk)) {
        ImportAction::Add { sources, parallelism: _ } => sources,
        other => panic!("{:?}", other),
    };
    let mut mess = MessageOut::new();
    let mut files = Vec::new();
    for (source, (size, tag)) in sources.into_iter().zip([(20u64, 2u8), (10, 1)]) {
        let mut track = ImportTrack::new(source.name);
        track.on_item(AddItem::Size(size), &mut mess);
        track.on_item(AddItem::CopyProgress(size), &mut mess);
        track.on_item(AddItem::CopyDone, &mut mess);
        match track.on_item(AddItem::Done([tag; 32]), &mut mess) {
            ImportStep::Finished(file) => files.push(file),
            other => panic!("{:?}", other),
        }
    }
    let collection = match import(&mut state, ImportInput::Added(files)) {
        ImportAction::Store(collection) => collection,
        other => panic!("{:?}", other),
    };
    assert_eq!(
        entries(&collection),
        vec![("a.txt".to_string(), [1; 32]), ("b/c.txt".to_string(), [2; 32])]
    );
    let (root, size) = match import(&mut state, ImportInput::Stored([0xc0; 32])) {
        ImportAction::Finish { root, size } => (root, size),
        other => panic!("{:?}", other),
    };
    assert_eq!(size, 30);
    let mut sending = SendState::new();
    send(&mut sending, SendInput::Start, &mut mess);
    send(&mut sending, SendInput::Imported { root, size }, &mut mess);
    send(&mut sending, SendInput::Tagged, &mut mess);
    assert_eq!(send(&mut sending, SendInput::Bound(Peer::new(address())), &mut mess), SendAction::Finish);
    let events = mess.take();
    match events.last() {
        Some(Event::SendTicket(text)) => {
            let ticket = read_ticket(text).unwrap();
            assert_eq!(ticket.hash(), [0xc0; 32]);
            assert!(ticket.is_collection());
        }
        other => panic!("{:?}", other),
    }
    assert_eq!(events[0], Event::Progress(("b/c.txt".to_string(), 0, 20)));
    assert_eq!(events[3], Event::ProgressComplete("b/c.txt".to_string()));
    assert_eq!(events[4], Event::Progress(("a.txt".to_string(), 0, 10)));
}
