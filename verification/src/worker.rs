//! The worker's dispatch: what each command of the interface sets going, and
//! how a transfer is closed.
//!
//! The worker takes one command at a time. A transfer runs with the timer
//! started and ends with the timer reset, whether it succeeded or not; a
//! failure is shown to the user and never ends the worker. While a transfer
//! runs, the command to cancel stops it and every other command waits.

use vstd::prelude::*;
use vstd::string::*;

use crate::comms::{message_event, Command, CommandView, EventView, MessageOut, MessageType};
use crate::error::{TransferError, TransferErrorView};
use crate::timer::TimerCommands;

verus! {

/// What the worker does for a command.
#[derive(Debug, PartialEq, Eq)]
pub enum WorkerAction {
    /// List the tags of the store in the log.
    ListTags,
    /// Start the timer, then share the file or directory at this path.
    Send(String),
    /// Start the timer, then fetch what the ticket names into the target
    /// directory.
    Fetch { ticket: String, target: String },
    /// Nothing.
    Idle,
}

/// The mathematical value of a [`WorkerAction`].
pub enum WorkerActionView {
    ListTags,
    Send(Seq<char>),
    Fetch { ticket: Seq<char>, target: Seq<char> },
    Idle,
}

impl View for WorkerAction {
    type V = WorkerActionView;

    open spec fn view(&self) -> WorkerActionView {
        match self {
            WorkerAction::ListTags => WorkerActionView::ListTags,
            WorkerAction::Send(p) => WorkerActionView::Send(p@),
            WorkerAction::Fetch { ticket, target } => WorkerActionView::Fetch {
                ticket: ticket@,
                target: target@,
            },
            WorkerAction::Idle => WorkerActionView::Idle,
        }
    }
}

impl WorkerActionView {
    /// Whether the action is a transfer, which runs under the timer.
    pub open spec fn is_transfer(self) -> bool {
        self is Send || self is Fetch
    }
}

/// What the command sets going.
pub open spec fn action_for(command: CommandView) -> WorkerActionView {
    match command {
        CommandView::Setup => WorkerActionView::ListTags,
        CommandView::Send(path) => WorkerActionView::Send(path),
        CommandView::Fetch(ticket, target) => WorkerActionView::Fetch { ticket, target },
        CommandView::CancelTest => WorkerActionView::Idle,
    }
}

/// What the user is shown when the command arrives: that the worker is ready
/// when the interface has come up, and nothing otherwise.
pub open spec fn greeting_for(command: CommandView) -> Seq<EventView> {
    match command {
        CommandView::Setup => seq![message_event("Ready..."@, MessageType::Good)],
        _ => Seq::<EventView>::empty(),
    }
}

/// What the user is shown at the end of a transfer: the closing line and
/// the end of the transfer after a success, the line of the error after a
/// failure.
pub open spec fn closing_for(result: Result<(), TransferErrorView>) -> Seq<EventView> {
    match result {
        Ok(()) => seq![
            message_event("Finished..."@, MessageType::Good),
            EventView::Finished,
        ],
        Err(error) => seq![message_event(error.message(), MessageType::Error)],
    }
}

/// What becomes of what arrives while a transfer runs.
#[derive(Debug, PartialEq, Eq)]
pub enum Meanwhile {
    /// Stop the running transfer.
    Cancel,
    /// Keep the command until the transfer is over; it is taken up then, in
    /// the order in which it came.
    Queue(Command),
    /// The interface is gone: stop the running transfer, and listen for
    /// commands no more.
    Closed,
}

/// The mathematical value of a [`Meanwhile`].
pub enum MeanwhileView {
    Cancel,
    Queue(CommandView),
    Closed,
}

impl View for Meanwhile {
    type V = MeanwhileView;

    open spec fn view(&self) -> MeanwhileView {
        match self {
            Meanwhile::Cancel => MeanwhileView::Cancel,
            Meanwhile::Queue(c) => MeanwhileView::Queue(c@),
            Meanwhile::Closed => MeanwhileView::Closed,
        }
    }
}

/// What becomes of an arrival while a transfer runs: the command to cancel
/// stops the transfer, every other command waits for its turn, and the end
/// of the channel of commands stops the transfer and the listening.
pub open spec fn meanwhile_for(arrival: Option<CommandView>) -> MeanwhileView {
    match arrival {
        None => MeanwhileView::Closed,
        Some(CommandView::CancelTest) => MeanwhileView::Cancel,
        Some(command) => MeanwhileView::Queue(command),
    }
}

/// The view of a command that may be missing.
pub open spec fn arrival_view(arrival: Option<Command>) -> Option<CommandView> {
    match arrival {
        Some(c) => Some(c@),
        None => None,
    }
}

/// The worker: the single owner of the outbox through which the user hears
/// of a transfer.
pub struct Worker {
    pub mess: MessageOut,
}

impl Worker {
    /// A worker with an empty outbox.
    pub fn new() -> (worker: Self)
        ensures
            worker.mess@ == Seq::<EventView>::empty(),
    {
        Worker { mess: MessageOut::new() }
    }

    /// Takes a command: queues what the user is shown at once, and says what
    /// is to be done and what the timer is told before it. The timer is
    /// started for a transfer and for nothing else.
    pub fn handle_command(&mut self, command: Command) -> (plan: (WorkerAction, Option<TimerCommands>))
        ensures
            plan.0@ == action_for(command@),
            plan.1 == if action_for(command@).is_transfer() {
                Some(TimerCommands::Start)
            } else {
                None
            },
            final(self).mess@ == old(self).mess@ + greeting_for(command@),
    {
        let ghost before = self.mess@;
        let plan = match command {
            Command::Setup => {
                self.mess.correct("Ready...");
                (WorkerAction::ListTags, None)
            },
            Command::Send(path) => (WorkerAction::Send(path), Some(TimerCommands::Start)),
            Command::Fetch((ticket, target)) => (
                WorkerAction::Fetch { ticket, target },
                Some(TimerCommands::Start),
            ),
            Command::CancelTest => (WorkerAction::Idle, None),
        };
        assert(self.mess@ =~= before + greeting_for(command@));
        plan
    }

    /// Closes a transfer: the timer is reset whatever the result, and the
    /// user is shown how it ended.
    pub fn transfer_done(&mut self, result: Result<(), TransferError>) -> (timer: TimerCommands)
        ensures
            timer == TimerCommands::Reset,
            final(self).mess@ == old(self).mess@ + closing_for(
                match result {
                    Ok(()) => Ok(()),
                    Err(e) => Err(e@),
                },
            ),
    {
        let ghost before = self.mess@;
        match result {
            Ok(()) => {
                self.mess.finished();
                assert(self.mess@ =~= before + closing_for(Ok(())));
            },
            Err(error) => {
                self.mess.error(error.message().as_str());
                assert(self.mess@ =~= before + closing_for(Err(error@)));
            },
        }
        TimerCommands::Reset
    }

    /// Says what becomes of what arrived while a transfer runs: a command, or
    /// nothing where the channel of commands is closed.
    pub fn during_transfer(arrival: Option<Command>) -> (answer: Meanwhile)
        ensures
            answer@ == meanwhile_for(arrival_view(arrival)),
    {
        match arrival {
            None => Meanwhile::Closed,
            Some(Command::CancelTest) => Meanwhile::Cancel,
            Some(command) => Meanwhile::Queue(command),
        }
    }

    /// Shows the user that a command other than a transfer failed.
    pub fn command_failed(&mut self, error: &TransferError)
        ensures
            final(self).mess@ == old(self).mess@.push(
                message_event(error@.message(), MessageType::Error),
            ),
    {
        self.mess.error(error.message().as_str());
    }
}

} // verus!
