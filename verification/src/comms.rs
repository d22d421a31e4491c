//! What travels between the interface and the worker: commands one way,
//! events the other, and the outbox in which the worker side gathers its
//! events before they are put on the channel.

use vstd::prelude::*;
use vstd::string::*;

pub use crate::progress::{Progress, ProgressBar, ProgressList};

verus! {

/// How many commands, and how many events, a channel holds before a sender
/// has to wait.
pub const CHANNEL_CAPACITY: usize = 16;

/// How a message line is shown.
#[derive(Clone, Copy, Debug, PartialEq, Eq, Structural)]
pub enum MessageType {
    /// Something went well.
    Good,
    /// Plain information.
    Info,
    /// A failure.
    Error,
}

/// One line of the running message log.
#[derive(Clone, Debug, PartialEq, Eq)]
pub struct MessageDisplay {
    pub text: String,
    pub mtype: MessageType,
}

/// The mathematical value of a [`MessageDisplay`].
pub struct MessageDisplayView {
    pub text: Seq<char>,
    pub mtype: MessageType,
}

impl View for MessageDisplay {
    type V = MessageDisplayView;

    open spec fn view(&self) -> MessageDisplayView {
        MessageDisplayView { text: self.text@, mtype: self.mtype }
    }
}

/// What the worker tells the interface.
#[derive(Debug, PartialEq, Eq)]
pub enum Event {
    /// A line for the message log.
    Message(MessageDisplay),
    /// The named track stands at `current` of `total`.
    Progress((String, usize, usize)),
    /// The named track is done; it stays on display.
    ProgressFinished(String),
    /// The named track leaves the display.
    ProgressComplete(String),
    /// The ticket of the content that was just shared.
    SendTicket(String),
    /// Seconds since the running transfer started.
    Tick(u64),
    /// The timer was stopped.
    StopTick,
    /// The transfer is over.
    Finished,
}

/// The mathematical value of an [`Event`].
pub enum EventView {
    Message(MessageDisplayView),
    Progress(Seq<char>, usize, usize),
    ProgressFinished(Seq<char>),
    ProgressComplete(Seq<char>),
    SendTicket(Seq<char>),
    Tick(u64),
    StopTick,
    Finished,
}

impl View for Event {
    type V = EventView;

    open spec fn view(&self) -> EventView {
        match self {
            Event::Message(m) => EventView::Message(m@),
            Event::Progress(p) => EventView::Progress(p.0@, p.1, p.2),
            Event::ProgressFinished(n) => EventView::ProgressFinished(n@),
            Event::ProgressComplete(n) => EventView::ProgressComplete(n@),
            Event::SendTicket(t) => EventView::SendTicket(t@),
            Event::Tick(s) => EventView::Tick(*s),
            Event::StopTick => EventView::StopTick,
            Event::Finished => EventView::Finished,
        }
    }
}

/// The views of a run of events.
pub open spec fn event_views(events: Seq<Event>) -> Seq<EventView> {
    events.map_values(|e: Event| e@)
}

/// The message event with the given text and kind.
pub open spec fn message_event(text: Seq<char>, mtype: MessageType) -> EventView {
    EventView::Message(MessageDisplayView { text, mtype })
}

/// What the interface asks of the worker.
#[derive(Debug, PartialEq, Eq)]
pub enum Command {
    /// The interface is up; the worker answers that it is ready.
    Setup,
    /// Share the file or directory at this path.
    Send(String),
    /// Fetch what the ticket names into the directory.
    Fetch((String, String)),
    /// Stop the running transfer.
    CancelTest,
}

/// The mathematical value of a [`Command`].
pub enum CommandView {
    Setup,
    Send(Seq<char>),
    Fetch(Seq<char>, Seq<char>),
    CancelTest,
}

impl View for Command {
    type V = CommandView;

    open spec fn view(&self) -> CommandView {
        match self {
            Command::Setup => CommandView::Setup,
            Command::Send(p) => CommandView::Send(p@),
            Command::Fetch(f) => CommandView::Fetch(f.0@, f.1@),
            Command::CancelTest => CommandView::CancelTest,
        }
    }
}

/// The worker side's outbox. Each method appends the events it is named for;
/// whoever owns the channel takes them out in order and sends them on.
pub struct MessageOut {
    pending: Vec<Event>,
}

impl View for MessageOut {
    type V = Seq<EventView>;

    /// The events that wait to be sent, oldest first.
    closed spec fn view(&self) -> Seq<EventView> {
        event_views(self.pending@)
    }
}

impl MessageOut {
    /// An empty outbox.
    pub fn new() -> (out: Self)
        ensures
            out@ == Seq::<EventView>::empty(),
    {
        let out = MessageOut { pending: Vec::new() };
        assert(out@ =~= Seq::<EventView>::empty());
        out
    }

    fn emit(&mut self, event: Event)
        ensures
            final(self)@ == old(self)@.push(event@),
    {
        self.pending.push(event);
        assert(self@ =~= old(self)@.push(event@));
    }

    /// Queues an informational line.
    pub fn info(&mut self, message: &str)
        ensures
            final(self)@ == old(self)@.push(message_event(message@, MessageType::Info)),
    {
        self.emit(
            Event::Message(
                MessageDisplay { text: String::from_str(message), mtype: MessageType::Info },
            ),
        );
    }

    /// Queues a line that reports success.
    pub fn correct(&mut self, message: &str)
        ensures
            final(self)@ == old(self)@.push(message_event(message@, MessageType::Good)),
    {
        self.emit(
            Event::Message(
                MessageDisplay { text: String::from_str(message), mtype: MessageType::Good },
            ),
        );
    }

    /// Queues a line that reports a failure.
    pub fn error(&mut self, message: &str)
        ensures
            final(self)@ == old(self)@.push(message_event(message@, MessageType::Error)),
    {
        self.emit(
            Event::Message(
                MessageDisplay { text: String::from_str(message), mtype: MessageType::Error },
            ),
        );
    }

    /// Queues the end of a transfer: a closing line, then the event itself.
    pub fn finished(&mut self)
        ensures
            final(self)@ == old(self)@.push(
                message_event("Finished..."@, MessageType::Good),
            ).push(EventView::Finished),
    {
        self.correct("Finished...");
        self.emit(Event::Finished);
    }

    /// Queues the position of a track.
    pub fn progress(&mut self, name: &str, current: usize, total: usize)
        ensures
            final(self)@ == old(self)@.push(EventView::Progress(name@, current, total)),
    {
        self.emit(Event::Progress((String::from_str(name), current, total)));
    }

    /// Queues that a track is done.
    pub fn complete(&mut self, name: &str)
        ensures
            final(self)@ == old(self)@.push(EventView::ProgressFinished(name@)),
    {
        self.emit(Event::ProgressFinished(String::from_str(name)));
    }

    /// Queues that a track leaves the display.
    pub fn progress_finish(&mut self, name: &str)
        ensures
            final(self)@ == old(self)@.push(EventView::ProgressComplete(name@)),
    {
        self.emit(Event::ProgressComplete(String::from_str(name)));
    }

    /// Queues the seconds elapsed.
    pub fn tick(&mut self, since: u64)
        ensures
            final(self)@ == old(self)@.push(EventView::Tick(since)),
    {
        self.emit(Event::Tick(since));
    }

    /// Queues that the timer stopped.
    pub fn reset_timer(&mut self)
        ensures
            final(self)@ == old(self)@.push(EventView::StopTick),
    {
        self.emit(Event::StopTick);
    }

    /// Queues the ticket of the shared content.
    pub fn send_ticket(&mut self, ticket: String)
        ensures
            final(self)@ == old(self)@.push(EventView::SendTicket(ticket@)),
    {
        self.emit(Event::SendTicket(ticket));
    }

    /// How many events wait.
    pub fn len(&self) -> (n: usize)
        ensures
            n == self@.len(),
    {
        self.pending.len()
    }

    /// Takes every waiting event out, oldest first, and leaves the outbox
    /// empty.
    pub fn take(&mut self) -> (events: Vec<Event>)
        ensures
            event_views(events@) == old(self)@,
            final(self)@ == Seq::<EventView>::empty(),
    {
        let mut events: Vec<Event> = Vec::new();
        std::mem::swap(&mut events, &mut self.pending);
        assert(self@ =~= Seq::<EventView>::empty());
        events
    }
}

} // verus!
