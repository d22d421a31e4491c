//! The state behind the interface: the mode it is in, the message log, the
//! progress bars and the timer display, and how the events of the worker
//! change them.

use async_channel::{Receiver, TryRecvError};
use vstd::prelude::*;
use vstd::string::*;

use crate::comms::{
    Command, CommandView, Event, EventView, MessageDisplay, MessageDisplayView, MessageType,
    CHANNEL_CAPACITY,
};
use crate::paths::{join_path, push_segment};
use crate::progress::{mark_complete, upsert, Progress, ProgressList};
use crate::text::{append_decimal, decimal_pad2};

verus! {

/// The receiving end of a channel of async-channel, of which the library
/// sees nothing inside.
#[verifier::external_type_specification]
#[verifier::external_body]
#[verifier::reject_recursive_types(T)]
pub struct ExReceiver<T>(Receiver<T>);

/// The most lines that the message log holds before the oldest line makes
/// room.
pub const MESSAGE_MAX: usize = 50;

/// The elapsed time as it is displayed: hours, minutes and seconds in
/// brackets, each with at least two digits.
pub open spec fn hms(total_seconds: u64) -> Seq<char> {
    seq!['['] + decimal_pad2((total_seconds / 3600) as nat) + seq![':'] + decimal_pad2(
        ((total_seconds % 3600) / 60) as nat,
    ) + seq![':'] + decimal_pad2((total_seconds % 60) as nat) + seq![']']
}

fn append_pad2(out: &mut String, n: u64)
    ensures
        final(out)@ == old(out)@ + decimal_pad2(n as nat),
{
    if n < 10 {
        proof {
            reveal_strlit("0");
            assert("0"@ =~= seq!['0']);
        }
        out.append("0");
    }
    append_decimal(out, n);
    assert(out@ =~= old(out)@ + decimal_pad2(n as nat));
}

/// The elapsed time as it is displayed, such as `[01:02:03]`.
pub fn format_seconds_as_hms(total_seconds: u64) -> (text: String)
    ensures
        text@ == hms(total_seconds),
{
    let hours = total_seconds / 3600;
    let minutes = (total_seconds % 3600) / 60;
    let seconds = total_seconds % 60;
    proof {
        reveal_strlit("[");
        reveal_strlit(":");
        reveal_strlit("]");
        assert("["@ =~= seq!['[']);
        assert(":"@ =~= seq![':']);
        assert("]"@ =~= seq![']']);
    }
    let mut text = String::from_str("[");
    append_pad2(&mut text, hours);
    text.append(":");
    append_pad2(&mut text, minutes);
    text.append(":");
    append_pad2(&mut text, seconds);
    text.append("]");
    assert(text@ =~= hms(total_seconds));
    text
}

/// The settings that are kept between runs.
#[derive(Debug, Clone, PartialEq, Eq)]
pub struct Config {
    pub dark_mode: bool,
    /// The directory that fetched files are written to.
    pub download_path: String,
    /// The directory of the store.
    pub store_path: String,
}

/// The mathematical value of a [`Config`].
pub struct ConfigView {
    pub dark_mode: bool,
    pub download_path: Seq<char>,
    pub store_path: Seq<char>,
}

impl View for Config {
    type V = ConfigView;

    open spec fn view(&self) -> ConfigView {
        ConfigView {
            dark_mode: self.dark_mode,
            download_path: self.download_path@,
            store_path: self.store_path@,
        }
    }
}

impl Config {
    /// The settings of a first run: dark mode, downloads in `sendme` below
    /// the user's download directory, and the store in
    /// `sendme-egui/blob_data` below the user's data directory.
    pub fn new(download_dir: &str, data_dir: &str) -> (config: Self)
        ensures
            config@ == (ConfigView {
                dark_mode: true,
                download_path: push_segment(download_dir@, "sendme"@),
                store_path: push_segment(push_segment(data_dir@, "sendme-egui"@), "blob_data"@),
            }),
    {
        let store = join_path(data_dir, "sendme-egui");
        Config {
            dark_mode: true,
            download_path: join_path(download_dir, "sendme"),
            store_path: join_path(store.as_str(), "blob_data"),
        }
    }
}

/// The mode of the interface.
#[derive(Debug, Clone, Copy, PartialEq, Eq, Structural)]
pub enum AppMode {
    Init,
    Idle,
    Send,
    SendProgress,
    FetchProgess,
    Finished,
    Config,
}

impl AppMode {
    /// The mode as it is shown in the status bar.
    pub open spec fn spec_label(self) -> Seq<char> {
        match self {
            AppMode::Init => "Init"@,
            AppMode::Idle => "Idle"@,
            AppMode::Send => "Send"@,
            AppMode::SendProgress => "Send Running..."@,
            AppMode::FetchProgess => "Fetch Running..."@,
            AppMode::Finished => "Finished"@,
            AppMode::Config => "Config"@,
        }
    }

    /// The mode as it is shown in the status bar.
    pub fn label(&self) -> (text: &'static str)
        ensures
            text@ == self.spec_label(),
    {
        match self {
            AppMode::Init => "Init",
            AppMode::Idle => "Idle",
            AppMode::Send => "Send",
            AppMode::SendProgress => "Send Running...",
            AppMode::FetchProgess => "Fetch Running...",
            AppMode::Finished => "Finished",
            AppMode::Config => "Config",
        }
    }

    /// Whether a transfer runs in this mode.
    pub open spec fn in_transfer(self) -> bool {
        self is SendProgress || self is FetchProgess
    }

    /// The mode in the next pass: the first pass and the pass after a
    /// transfer lead to the idle mode, every other mode stays.
    pub open spec fn advanced(self) -> AppMode {
        match self {
            AppMode::Init => AppMode::Idle,
            AppMode::Finished => AppMode::Idle,
            other => other,
        }
    }

    /// Whether the user may pick something to send in this mode: not while a
    /// transfer runs, and not while the settings are open.
    pub open spec fn send_enabled(self) -> bool {
        !self.in_transfer() && !(self is Config)
    }
}

/// The state behind the interface.
pub struct AppState {
    pub picked_path: Option<String>,
    pub mode: AppMode,
    pub receiver_ticket: String,
    pub send_ticket: Option<String>,
    pub progress: ProgressList,
    pub messages: Vec<MessageDisplay>,
    pub config: Config,
    pub elapsed: Option<u64>,
}

/// The mathematical value of an [`AppState`].
pub struct AppStateView {
    pub picked_path: Option<Seq<char>>,
    pub mode: AppMode,
    pub receiver_ticket: Seq<char>,
    pub send_ticket: Option<Seq<char>>,
    pub progress: Map<Seq<char>, Progress>,
    pub messages: Seq<MessageDisplayView>,
    pub config: ConfigView,
    pub elapsed: Option<u64>,
}

/// The view of a text that may be missing.
pub open spec fn text_view(text: Option<String>) -> Option<Seq<char>> {
    match text {
        Some(t) => Some(t@),
        None => None,
    }
}

/// The views of a run of message lines.
pub open spec fn message_views(messages: Seq<MessageDisplay>) -> Seq<MessageDisplayView> {
    messages.map_values(|m: MessageDisplay| m@)
}

impl View for AppState {
    type V = AppStateView;

    open spec fn view(&self) -> AppStateView {
        AppStateView {
            picked_path: text_view(self.picked_path),
            mode: self.mode,
            receiver_ticket: self.receiver_ticket@,
            send_ticket: text_view(self.send_ticket),
            progress: self.progress@,
            messages: message_views(self.messages@),
            config: self.config@,
            elapsed: self.elapsed,
        }
    }
}

impl AppStateView {
    /// The state after one event of the worker.
    ///
    /// A message joins the log, for which the oldest line makes room once
    /// the log holds more than [`MESSAGE_MAX`] lines; the message of a
    /// failure also ends the mode of a running transfer, so that the user
    /// can try again. The progress events change the track they name. The
    /// timer events set and clear the elapsed time. A ticket is kept for
    /// display, and the end of a transfer sets the mode.
    pub open spec fn after(self, event: EventView) -> AppStateView {
        match event {
            EventView::Message(m) => AppStateView {
                messages: (if self.messages.len() > MESSAGE_MAX {
                    self.messages.remove(0)
                } else {
                    self.messages
                }).push(m),
                mode: if m.mtype == MessageType::Error && self.mode.in_transfer() {
                    AppMode::Idle
                } else {
                    self.mode
                },
                ..self
            },
            EventView::Progress(name, current, total) => AppStateView {
                progress: upsert(self.progress, name, current, total),
                ..self
            },
            EventView::ProgressFinished(name) => AppStateView {
                progress: mark_complete(self.progress, name),
                ..self
            },
            EventView::ProgressComplete(name) => AppStateView {
                progress: self.progress.remove(name),
                ..self
            },
            EventView::SendTicket(ticket) => AppStateView { send_ticket: Some(ticket), ..self },
            EventView::Tick(seconds) => AppStateView { elapsed: Some(seconds), ..self },
            EventView::StopTick => AppStateView { elapsed: None, ..self },
            EventView::Finished => AppStateView { mode: AppMode::Finished, ..self },
        }
    }

    /// The state after the events in turn.
    pub open spec fn after_all(self, events: Seq<EventView>) -> AppStateView
        decreases events.len(),
    {
        if events.len() == 0 {
            self
        } else {
            self.after_all(events.drop_last()).after(events.last())
        }
    }
}

/// What a look into the channel of events found.
enum Polled {
    /// The next event.
    Event(Event),
    /// No event waits.
    Empty,
    /// No event waits, and none will come: the worker is gone.
    Closed,
}

/// Calls `Receiver::try_recv` of async-channel, which never waits. Nothing
/// is claimed of what it finds: that lies with the sender.
#[verifier::external_body]
fn poll(events: &Receiver<Event>) -> (found: Polled) {
    match events.try_recv() {
        Ok(event) => Polled::Event(event),
        Err(TryRecvError::Empty) => Polled::Empty,
        Err(TryRecvError::Closed) => Polled::Closed,
    }
}

/// What a pass of the interface comes to.
#[derive(Debug, Clone, Copy, PartialEq, Eq, Structural)]
pub struct Pass {
    /// Whether the user may pick something to send.
    pub send_enabled: bool,
    /// Whether the worker is gone.
    pub closed: bool,
}

impl AppState {
    /// The state of an interface that has just come up.
    pub fn new(config: Config) -> (state: Self)
        ensures
            state@ == (AppStateView {
                picked_path: None,
                mode: AppMode::Init,
                receiver_ticket: Seq::<char>::empty(),
                send_ticket: None,
                progress: Map::<Seq<char>, Progress>::empty(),
                messages: Seq::<MessageDisplayView>::empty(),
                config: config@,
                elapsed: None,
            }),
    {
        let state = AppState {
            picked_path: None,
            mode: AppMode::Init,
            receiver_ticket: String::new(),
            send_ticket: None,
            progress: ProgressList::new(),
            messages: Vec::new(),
            config,
            elapsed: None,
        };
        assert(state@.messages =~= Seq::<MessageDisplayView>::empty());
        state
    }

    /// Takes one event of the worker.
    pub fn apply(&mut self, event: Event)
        ensures
            final(self)@ == old(self)@.after(event@),
    {
        match event {
            Event::Message(m) => {
                if self.messages.len() > MESSAGE_MAX {
                    let _ = self.messages.remove(0);
                }
                if m.mtype == MessageType::Error && (self.mode == AppMode::SendProgress
                    || self.mode == AppMode::FetchProgess) {
                    self.mode = AppMode::Idle;
                }
                self.messages.push(m);
                assert(self@.messages =~= old(self)@.after(event@).messages);
            },
            Event::Progress((name, current, total)) => {
                self.progress.insert(name, current, total);
            },
            Event::ProgressFinished(name) => {
                self.progress.complete(name);
            },
            Event::ProgressComplete(name) => {
                self.progress.finish(name);
            },
            Event::SendTicket(ticket) => {
                self.send_ticket = Some(ticket);
            },
            Event::Tick(seconds) => {
                self.elapsed = Some(seconds);
            },
            Event::StopTick => {
                self.elapsed = None;
            },
            Event::Finished => {
                self.mode = AppMode::Finished;
            },
        }
    }

    /// Moves the mode on for the next pass and says whether the user may
    /// pick something to send.
    pub fn advance(&mut self) -> (send_enabled: bool)
        ensures
            final(self)@ == (AppStateView { mode: old(self)@.mode.advanced(), ..old(self)@ }),
            send_enabled == old(self)@.mode.send_enabled(),
    {
        match self.mode {
            AppMode::Init => {
                self.mode = AppMode::Idle;
                true
            },
            AppMode::Idle => true,
            AppMode::Send => true,
            AppMode::SendProgress => false,
            AppMode::FetchProgess => false,
            AppMode::Finished => {
                self.mode = AppMode::Idle;
                true
            },
            AppMode::Config => false,
        }
    }

    /// One pass of the interface: takes the events that wait in the channel,
    /// at most as many as the channel holds, without waiting for more, then
    /// moves the mode on. Whatever the channel held, the state is what those
    /// events make of it, in their order. The worker is reported gone only
    /// by a look that found the channel closed and empty, and so before the
    /// pass has taken as many events as the channel holds.
    pub fn update(&mut self, events: &Receiver<Event>) -> (pass: Pass)
        ensures
            exists|taken: Seq<EventView>|
                {
                    &&& taken.len() <= CHANNEL_CAPACITY
                    &&& final(self)@ == (AppStateView {
                        mode: (#[trigger] old(self)@.after_all(taken)).mode.advanced(),
                        ..old(self)@.after_all(taken)
                    })
                    &&& pass.send_enabled == old(self)@.after_all(taken).mode.send_enabled()
                    &&& pass.closed ==> taken.len() < CHANNEL_CAPACITY
                },
    {
        let ghost mut taken = Seq::<EventView>::empty();
        let mut closed = false;
        let mut n: usize = 0;
        while n < CHANNEL_CAPACITY
            invariant_except_break
                !closed,
            invariant
                n <= CHANNEL_CAPACITY,
                taken.len() <= n,
                self@ == old(self)@.after_all(taken),
            ensures
                closed ==> taken.len() < CHANNEL_CAPACITY,
            decreases CHANNEL_CAPACITY - n,
        {
            match poll(events) {
                Polled::Event(event) => {
                    proof {
                        let longer = taken.push(event@);
                        assert(longer.drop_last() =~= taken);
                        taken = longer;
                    }
                    self.apply(event);
                },
                Polled::Empty => {
                    break ;
                },
                Polled::Closed => {
                    closed = true;
                    break ;
                },
            }
            n += 1;
        }
        let send_enabled = self.advance();
        Pass { send_enabled, closed }
    }

    /// Back to the idle mode, with an empty ticket field, an empty message
    /// log and no progress bars.
    pub fn reset(&mut self)
        ensures
            final(self)@ == (AppStateView {
                mode: AppMode::Idle,
                receiver_ticket: Seq::<char>::empty(),
                messages: Seq::<MessageDisplayView>::empty(),
                progress: Map::<Seq<char>, Progress>::empty(),
                ..old(self)@
            }),
    {
        self.mode = AppMode::Idle;
        self.receiver_ticket = String::new();
        self.messages = Vec::new();
        self.progress.clear();
        assert(self@.messages =~= Seq::<MessageDisplayView>::empty());
    }

    /// The user closed a dialog for picking what to send: the path, if one
    /// was picked, is kept, and the mode is the send mode either way.
    pub fn pick(&mut self, path: Option<String>)
        ensures
            final(self)@ == (AppStateView {
                picked_path: if path is Some {
                    text_view(path)
                } else {
                    old(self)@.picked_path
                },
                mode: AppMode::Send,
                ..old(self)@
            }),
    {
        if path.is_some() {
            self.picked_path = path;
        }
        self.mode = AppMode::Send;
    }

    /// In the send mode with a path picked, the send begins: the command for
    /// the worker is returned, the progress bars of the last transfer go,
    /// and the mode shows the send running. Otherwise nothing changes.
    pub fn start_send(&mut self) -> (command: Option<Command>)
        ensures
            old(self)@.mode is Send && old(self)@.picked_path is Some ==> command is Some
                && command->0@ == CommandView::Send(old(self)@.picked_path->0) && final(self)@ == (
            AppStateView {
                mode: AppMode::SendProgress,
                progress: Map::<Seq<char>, Progress>::empty(),
                ..old(self)@
            }),
            !(old(self)@.mode is Send && old(self)@.picked_path is Some) ==> command is None
                && final(self)@ == old(self)@,
    {
        if self.mode == AppMode::Send {
            let path = match &self.picked_path {
                Some(path) => path.clone(),
                None => {
                    return None;
                },
            };
            self.progress.clear();
            self.mode = AppMode::SendProgress;
            Some(Command::Send(path))
        } else {
            None
        }
    }

    /// The fetch of the ticket in the ticket field begins, into `target` or,
    /// where none is given, into the download directory of the settings: the
    /// command for the worker is returned, a given target is kept as the
    /// picked path, the progress bars of the last transfer go, and the mode
    /// shows the fetch running.
    pub fn start_fetch(&mut self, target: Option<String>) -> (command: Command)
        ensures
            command@ == CommandView::Fetch(
                old(self)@.receiver_ticket,
                match target {
                    Some(t) => t@,
                    None => old(self)@.config.download_path,
                },
            ),
            final(self)@ == (AppStateView {
                picked_path: if target is Some {
                    text_view(target)
                } else {
                    old(self)@.picked_path
                },
                mode: AppMode::FetchProgess,
                progress: Map::<Seq<char>, Progress>::empty(),
                ..old(self)@
            }),
    {
        let directory = match &target {
            Some(t) => t.clone(),
            None => self.config.download_path.clone(),
        };
        if target.is_some() {
            self.picked_path = target;
        }
        self.progress.clear();
        self.mode = AppMode::FetchProgess;
        Command::Fetch((self.receiver_ticket.clone(), directory))
    }

    /// The settings are opened.
    pub fn open_config(&mut self)
        ensures
            final(self)@ == (AppStateView { mode: AppMode::Config, ..old(self)@ }),
    {
        self.mode = AppMode::Config;
    }

    /// The settings are closed, back to the idle mode.
    pub fn save_config(&mut self)
        ensures
            final(self)@ == (AppStateView { mode: AppMode::Idle, ..old(self)@ }),
    {
        self.mode = AppMode::Idle;
    }
}

} // verus!
