//! The receive path: from a ticket to the files on disk.
//!
//! The network and the store are worked by whoever holds them. That side
//! reports each thing that happened as an input to [`receive`], which decides
//! what is shown to the user and what is to be done next. The local store is
//! always asked first: only where something is missing is an endpoint made
//! and the peer contacted, and only for what is missing.

use vstd::prelude::*;
use vstd::string::*;

use crate::comms::{message_event, EventView, MessageOut, MessageType};
use crate::error::{TransferError, TransferErrorView};
use crate::sizes::{capped, capped_usize, format_size_decimal, human_size, sum, sum_from, to_usize};
use crate::tags::TagKind;
use crate::text::{glue, decimal, decimal_string};
use crate::ticket::{read_ticket, ticket_content, Ticket};

verus! {

/// How far a fetch has come.
#[derive(Debug, Clone, Copy, PartialEq, Eq, Structural)]
pub enum ReceivePhase {
    /// Nothing was done yet; the ticket is awaited.
    Start,
    /// The store is being asked what of the content it has.
    CheckingLocal,
    /// Something is missing, and the local endpoint is being created.
    Binding,
    /// A connection to the peer is being opened.
    Connecting,
    /// The peer is being asked for the sizes of the parts.
    Sizing,
    /// The missing parts are being streamed.
    Downloading,
    /// The root is being tagged in the store.
    Tagging,
    /// The collection is being loaded from the store.
    Loading,
    /// The files are being written to the target directory.
    Exporting,
    /// The fetch succeeded.
    Done,
    /// The fetch failed.
    Failed,
}

/// The state of a fetch.
#[derive(Debug, Clone, Copy, PartialEq, Eq, Structural)]
pub struct Receive {
    pub phase: ReceivePhase,
    /// The number of files, once it is known.
    pub total_files: u64,
    /// The number of bytes in the files, once it is known.
    pub payload_size: u64,
}

/// What happened since the last step of a fetch.
#[derive(Debug)]
pub enum ReceiveInput {
    /// The user asked for the content that this ticket text names.
    Ticket(String),
    /// The local endpoint was created.
    Bound,
    /// The store answered: whether it has everything, and how many parts the
    /// root has, if it knows.
    Local { complete: bool, children: Option<u64> },
    /// The connection to the peer is open.
    Connected,
    /// The peer answered with the sizes of the parts: first the root, then
    /// the list of names, then the files.
    Sizes(Vec<u64>),
    /// The stream reported the number of bytes received so far.
    Progress(u64),
    /// The stream reported the end of the download and the bytes it read.
    Done(u64),
    /// The stream reported a failure.
    Error,
    /// The stream ended.
    StreamEnded,
    /// The root was tagged.
    Tagged,
    /// The collection was loaded.
    Loaded,
    /// The files were written.
    Exported,
    /// The step that was asked for could not be done.
    Failed(TransferError),
    /// The user stopped the transfer.
    Cancel,
}

/// The mathematical value of a [`ReceiveInput`].
pub enum ReceiveInputView {
    Ticket(Seq<char>),
    Bound,
    Local { complete: bool, children: Option<u64> },
    Connected,
    Sizes(Seq<u64>),
    Progress(u64),
    Done(u64),
    Error,
    StreamEnded,
    Tagged,
    Loaded,
    Exported,
    Failed(TransferErrorView),
    Cancel,
}

impl View for ReceiveInput {
    type V = ReceiveInputView;

    open spec fn view(&self) -> ReceiveInputView {
        match self {
            ReceiveInput::Ticket(t) => ReceiveInputView::Ticket(t@),
            ReceiveInput::Bound => ReceiveInputView::Bound,
            ReceiveInput::Local { complete, children } => ReceiveInputView::Local {
                complete: *complete,
                children: *children,
            },
            ReceiveInput::Connected => ReceiveInputView::Connected,
            ReceiveInput::Sizes(s) => ReceiveInputView::Sizes(s@),
            ReceiveInput::Progress(n) => ReceiveInputView::Progress(*n),
            ReceiveInput::Done(n) => ReceiveInputView::Done(*n),
            ReceiveInput::Error => ReceiveInputView::Error,
            ReceiveInput::StreamEnded => ReceiveInputView::StreamEnded,
            ReceiveInput::Tagged => ReceiveInputView::Tagged,
            ReceiveInput::Loaded => ReceiveInputView::Loaded,
            ReceiveInput::Exported => ReceiveInputView::Exported,
            ReceiveInput::Failed(e) => ReceiveInputView::Failed(e@),
            ReceiveInput::Cancel => ReceiveInputView::Cancel,
        }
    }
}

/// What is to be done next in a fetch.
#[derive(Debug)]
pub enum ReceiveAction {
    /// Ask the store what of the ticket's content it has. The ticket is
    /// handed over for the steps that follow.
    CheckLocal(Ticket),
    /// Create the local endpoint: something is missing, and the peer is
    /// needed.
    Bind,
    /// Open a connection to the ticket's peer.
    Connect,
    /// Ask the peer for the sizes of the parts.
    RequestSizes,
    /// Stream what the store said is missing, and nothing else.
    Download,
    /// Go on reading the stream.
    Continue,
    /// Tag the root in the store under a new label of this kind.
    Tag(TagKind),
    /// Load the collection from the store.
    Load,
    /// Write the files of the collection to the target directory.
    Export,
    /// Nothing is left to do: the fetch succeeded.
    Finish,
    /// Give up with this error.
    Fail(TransferError),
    /// The fetch was over before this input came.
    Stop,
}

/// The mathematical value of a [`ReceiveAction`]. Of a ticket it holds what
/// the ticket names: the identity of the peer, the content identifier and
/// whether it names a collection.
pub enum ReceiveActionView {
    CheckLocal(Seq<u8>, Seq<u8>, bool),
    Bind,
    Connect,
    RequestSizes,
    Download,
    Continue,
    Tag(TagKind),
    Load,
    Export,
    Finish,
    Fail(TransferErrorView),
    Stop,
}

impl View for ReceiveAction {
    type V = ReceiveActionView;

    open spec fn view(&self) -> ReceiveActionView {
        match self {
            ReceiveAction::CheckLocal(t) => ReceiveActionView::CheckLocal(
                t.spec_peer(),
                t.spec_hash(),
                t.spec_collection(),
            ),
            ReceiveAction::Bind => ReceiveActionView::Bind,
            ReceiveAction::Connect => ReceiveActionView::Connect,
            ReceiveAction::RequestSizes => ReceiveActionView::RequestSizes,
            ReceiveAction::Download => ReceiveActionView::Download,
            ReceiveAction::Continue => ReceiveActionView::Continue,
            ReceiveAction::Tag(kind) => ReceiveActionView::Tag(*kind),
            ReceiveAction::Load => ReceiveActionView::Load,
            ReceiveAction::Export => ReceiveActionView::Export,
            ReceiveAction::Finish => ReceiveActionView::Finish,
            ReceiveAction::Fail(e) => ReceiveActionView::Fail(e@),
            ReceiveAction::Stop => ReceiveActionView::Stop,
        }
    }
}

impl ReceiveActionView {
    /// Whether the action is network activity: making the local endpoint,
    /// or reaching out to the peer.
    pub open spec fn uses_network(self) -> bool {
        self is Bind || self is Connect || self is RequestSizes || self is Download
    }
}

/// What one step of a fetch comes to: the state after it, what is to be done
/// next, and the events for the user.
pub struct ReceiveOutcome {
    pub state: Receive,
    pub action: ReceiveActionView,
    pub events: Seq<EventView>,
}

/// The name of the track that shows the download.
pub open spec fn download_track() -> Seq<char> {
    "Download"@
}

/// The number of files that a root with `children` parts holds: one part is
/// the list of names.
pub open spec fn files_among(children: Option<u64>) -> u64 {
    match children {
        Some(n) => if n > 0 {
            (n - 1) as u64
        } else {
            0
        },
        None => 0,
    }
}

/// The number of files among `parts` parts of which one is the root.
pub open spec fn files_of_parts(parts: nat) -> u64 {
    if parts == 0 {
        0
    } else {
        capped((parts - 1) as nat)
    }
}

/// The bytes of the files among the sizes: everything behind the root and the
/// list of names.
pub open spec fn payload_of(sizes: Seq<u64>) -> u64 {
    if sizes.len() >= 2 {
        capped(sum(sizes.skip(2)))
    } else {
        0
    }
}

impl Receive {
    /// The fetch gives up with `error`.
    pub open spec fn fails(self, error: TransferErrorView) -> ReceiveOutcome {
        ReceiveOutcome {
            state: Receive { phase: ReceivePhase::Failed, ..self },
            action: ReceiveActionView::Fail(error),
            events: Seq::<EventView>::empty(),
        }
    }

    /// The fetch moves to `phase` with `action` and `events`.
    pub open spec fn moves(
        self,
        phase: ReceivePhase,
        action: ReceiveActionView,
        events: Seq<EventView>,
    ) -> ReceiveOutcome {
        ReceiveOutcome { state: Receive { phase, ..self }, action, events }
    }

    /// What the step on `input` comes to.
    ///
    /// A fetch that is over stays as it is. A failure that is reported
    /// ends the fetch with that error, and a fetch that the user stops ends
    /// as cancelled; nothing that was taken in or written is undone.
    /// Otherwise each phase awaits its own inputs, and any other input ends
    /// the fetch as a stream error.
    pub open spec fn outcome(self, input: ReceiveInputView) -> ReceiveOutcome {
        if self.phase is Done || self.phase is Failed {
            ReceiveOutcome {
                state: self,
                action: ReceiveActionView::Stop,
                events: Seq::<EventView>::empty(),
            }
        } else if input is Failed {
            self.fails(input->Failed_0)
        } else if input is Cancel {
            self.fails(TransferErrorView::Cancelled)
        } else {
            match (self.phase, input) {
                (ReceivePhase::Start, ReceiveInputView::Ticket(text)) => {
                    if text.len() == 0 {
                        self.fails(TransferErrorView::EmptyTicket)
                    } else {
                        match ticket_content(text) {
                            None => self.fails(TransferErrorView::InvalidTicket),
                            Some(content) => self.moves(
                                ReceivePhase::CheckingLocal,
                                ReceiveActionView::CheckLocal(content.0, content.1, content.2),
                                Seq::<EventView>::empty(),
                            ),
                        }
                    }
                },
                (ReceivePhase::Binding, ReceiveInputView::Bound) => self.moves(
                    ReceivePhase::Connecting,
                    ReceiveActionView::Connect,
                    seq![message_event("Local endpoint created..."@, MessageType::Info)],
                ),
                (ReceivePhase::CheckingLocal, ReceiveInputView::Local { complete, children }) => {
                    if complete {
                        ReceiveOutcome {
                            state: Receive {
                                phase: ReceivePhase::Loading,
                                total_files: files_among(children),
                                payload_size: 0,
                            },
                            action: ReceiveActionView::Load,
                            events: seq![
                                message_event("Blob is complete and local!"@, MessageType::Good),
                            ],
                        }
                    } else {
                        self.moves(
                            ReceivePhase::Binding,
                            ReceiveActionView::Bind,
                            seq![message_event("Unfinished Download..."@, MessageType::Info)],
                        )
                    }
                },
                (ReceivePhase::Connecting, ReceiveInputView::Connected) => self.moves(
                    ReceivePhase::Sizing,
                    ReceiveActionView::RequestSizes,
                    seq![message_event("Connection Established"@, MessageType::Good)],
                ),
                (ReceivePhase::Sizing, ReceiveInputView::Sizes(sizes)) => ReceiveOutcome {
                    state: Receive {
                        phase: ReceivePhase::Downloading,
                        total_files: files_of_parts(sizes.len()),
                        payload_size: payload_of(sizes),
                    },
                    action: ReceiveActionView::Download,
                    events: seq![
                        message_event(
                            "total size: "@ + human_size(capped(sum(sizes))),
                            MessageType::Info,
                        ),
                    ],
                },
                (ReceivePhase::Downloading, ReceiveInputView::Progress(offset)) => self.moves(
                    ReceivePhase::Downloading,
                    ReceiveActionView::Continue,
                    seq![
                        EventView::Progress(
                            download_track(),
                            capped_usize(offset),
                            capped_usize(self.payload_size),
                        ),
                    ],
                ),
                (ReceivePhase::Downloading, ReceiveInputView::Done(read)) => self.moves(
                    ReceivePhase::Downloading,
                    ReceiveActionView::Continue,
                    seq![
                        message_event("Done"@, MessageType::Good),
                        EventView::ProgressFinished(download_track()),
                        message_event("bytes read "@ + decimal(read as nat), MessageType::Info),
                    ],
                ),
                (ReceivePhase::Downloading, ReceiveInputView::Error) => self.fails(
                    TransferErrorView::StreamError("stream"@),
                ),
                (ReceivePhase::Downloading, ReceiveInputView::StreamEnded) => self.moves(
                    ReceivePhase::Tagging,
                    ReceiveActionView::Tag(TagKind::Incoming),
                    Seq::<EventView>::empty(),
                ),
                (ReceivePhase::Tagging, ReceiveInputView::Tagged) => self.moves(
                    ReceivePhase::Loading,
                    ReceiveActionView::Load,
                    Seq::<EventView>::empty(),
                ),
                (ReceivePhase::Loading, ReceiveInputView::Loaded) => self.moves(
                    ReceivePhase::Exporting,
                    ReceiveActionView::Export,
                    Seq::<EventView>::empty(),
                ),
                (ReceivePhase::Exporting, ReceiveInputView::Exported) => self.moves(
                    ReceivePhase::Done,
                    ReceiveActionView::Finish,
                    seq![
                        message_event(decimal(self.total_files as nat), MessageType::Good),
                        message_event(decimal(self.payload_size as nat), MessageType::Good),
                    ],
                ),
                _ => self.fails(TransferErrorView::StreamError("unexpected event"@)),
            }
        }
    }

    /// A fetch that has not begun.
    pub fn new() -> (state: Self)
        ensures
            state == (Receive { phase: ReceivePhase::Start, total_files: 0, payload_size: 0 }),
    {
        Receive { phase: ReceivePhase::Start, total_files: 0, payload_size: 0 }
    }

    fn fail(&mut self, error: TransferError) -> (action: ReceiveAction)
        ensures
            *final(self) == old(self).fails(error@).state,
            action@ == old(self).fails(error@).action,
    {
        self.phase = ReceivePhase::Failed;
        ReceiveAction::Fail(error)
    }

    fn unexpected(&mut self) -> (action: ReceiveAction)
        ensures
            *final(self) == old(self).fails(TransferErrorView::StreamError("unexpected event"@)).state,
            action@ == old(self).fails(TransferErrorView::StreamError("unexpected event"@)).action,
    {
        self.fail(TransferError::StreamError(String::from_str("unexpected event")))
    }
}

/// One step of a fetch: takes what happened, queues the events for the user
/// and says what is to be done next.
pub fn receive(state: &mut Receive, input: ReceiveInput, mess: &mut MessageOut) -> (action:
    ReceiveAction)
    ensures
        *final(state) == old(state).outcome(input@).state,
        action@ == old(state).outcome(input@).action,
        final(mess)@ == old(mess)@ + old(state).outcome(input@).events,
{
    let ghost before = mess@;
    let ghost out = state.outcome(input@);
    let action = match state.phase {
        ReceivePhase::Done | ReceivePhase::Failed => ReceiveAction::Stop,
        ReceivePhase::Start => match input {
            ReceiveInput::Failed(e) => state.fail(e),
            ReceiveInput::Cancel => state.fail(TransferError::Cancelled),
            ReceiveInput::Ticket(text) => match read_ticket(text.as_str()) {
                Ok(ticket) => {
                    state.phase = ReceivePhase::CheckingLocal;
                    ReceiveAction::CheckLocal(ticket)
                },
                Err(e) => state.fail(e),
            },
            _ => state.unexpected(),
        },
        ReceivePhase::Binding => match input {
            ReceiveInput::Failed(e) => state.fail(e),
            ReceiveInput::Cancel => state.fail(TransferError::Cancelled),
            ReceiveInput::Bound => {
                mess.info("Local endpoint created...");
                state.phase = ReceivePhase::Connecting;
                ReceiveAction::Connect
            },
            _ => state.unexpected(),
        },
        ReceivePhase::CheckingLocal => match input {
            ReceiveInput::Failed(e) => state.fail(e),
            ReceiveInput::Cancel => state.fail(TransferError::Cancelled),
            ReceiveInput::Local { complete, children } => {
                if complete {
                    mess.correct("Blob is complete and local!");
                    state.total_files = match children {
                        Some(n) => if n > 0 {
                            n - 1
                        } else {
                            0
                        },
                        None => 0,
                    };
                    state.payload_size = 0;
                    state.phase = ReceivePhase::Loading;
                    ReceiveAction::Load
                } else {
                    mess.info("Unfinished Download...");
                    state.phase = ReceivePhase::Binding;
                    ReceiveAction::Bind
                }
            },
            _ => state.unexpected(),
        },
        ReceivePhase::Connecting => match input {
            ReceiveInput::Failed(e) => state.fail(e),
            ReceiveInput::Cancel => state.fail(TransferError::Cancelled),
            ReceiveInput::Connected => {
                mess.correct("Connection Established");
                state.phase = ReceivePhase::Sizing;
                ReceiveAction::RequestSizes
            },
            _ => state.unexpected(),
        },
        ReceivePhase::Sizing => match input {
            ReceiveInput::Failed(e) => state.fail(e),
            ReceiveInput::Cancel => state.fail(TransferError::Cancelled),
            ReceiveInput::Sizes(sizes) => {
                let total = sum_from(&sizes, 0);
                assert(sizes@.skip(0) =~= sizes@);
                let line = glue("total size: ", format_size_decimal(total).as_str());
                mess.info(line.as_str());
                state.payload_size = sum_from(&sizes, 2);
                state.total_files = if sizes.len() == 0 {
                    0
                } else {
                    (sizes.len() - 1) as u64
                };
                state.phase = ReceivePhase::Downloading;
                ReceiveAction::Download
            },
            _ => state.unexpected(),
        },
        ReceivePhase::Downloading => match input {
            ReceiveInput::Failed(e) => state.fail(e),
            ReceiveInput::Cancel => state.fail(TransferError::Cancelled),
            ReceiveInput::Progress(offset) => {
                mess.progress("Download", to_usize(offset), to_usize(state.payload_size));
                ReceiveAction::Continue
            },
            ReceiveInput::Done(read) => {
                mess.correct("Done");
                mess.complete("Download");
                let line = glue("bytes read ", decimal_string(read).as_str());
                mess.info(line.as_str());
                ReceiveAction::Continue
            },
            ReceiveInput::Error => state.fail(
                TransferError::StreamError(String::from_str("stream")),
            ),
            ReceiveInput::StreamEnded => {
                state.phase = ReceivePhase::Tagging;
                ReceiveAction::Tag(TagKind::Incoming)
            },
            _ => state.unexpected(),
        },
        ReceivePhase::Tagging => match input {
            ReceiveInput::Failed(e) => state.fail(e),
            ReceiveInput::Cancel => state.fail(TransferError::Cancelled),
            ReceiveInput::Tagged => {
                state.phase = ReceivePhase::Loading;
                ReceiveAction::Load
            },
            _ => state.unexpected(),
        },
        ReceivePhase::Loading => match input {
            ReceiveInput::Failed(e) => state.fail(e),
            ReceiveInput::Cancel => state.fail(TransferError::Cancelled),
            ReceiveInput::Loaded => {
                state.phase = ReceivePhase::Exporting;
                ReceiveAction::Export
            },
            _ => state.unexpected(),
        },
        ReceivePhase::Exporting => match input {
            ReceiveInput::Failed(e) => state.fail(e),
            ReceiveInput::Cancel => state.fail(TransferError::Cancelled),
            ReceiveInput::Exported => {
                mess.correct(decimal_string(state.total_files).as_str());
                mess.correct(decimal_string(state.payload_size).as_str());
                state.phase = ReceivePhase::Done;
                ReceiveAction::Finish
            },
            _ => state.unexpected(),
        },
    };
    assert(mess@ =~= before + out.events);
    action
}

/// A fetch that is over stays over: whatever comes, nothing is shown and
/// nothing is asked for.
pub proof fn lemma_receive_over(state: Receive, input: ReceiveInputView)
    requires
        state.phase is Done || state.phase is Failed,
    ensures
        state.outcome(input).state == state,
        state.outcome(input).action is Stop,
        state.outcome(input).events.len() == 0,
{
}

/// The store is asked before the peer: a step reaches out to the peer only
/// after the store has answered, and the local endpoint, with which all
/// network activity begins, is asked for only in answer to the report that
/// something is missing.
pub proof fn lemma_network_follows_local_check(state: Receive, input: ReceiveInputView)
    requires
        state.outcome(input).action.uses_network(),
    ensures
        state.phase is CheckingLocal || state.phase is Binding || state.phase is Connecting
            || state.phase is Sizing,
        state.outcome(input).action is Bind ==> state.phase is CheckingLocal && input is Local
            && !input->complete,
{
}

/// Whether the phase lies behind the download, so that the peer is no longer
/// needed.
pub open spec fn past_network(phase: ReceivePhase) -> bool {
    phase is Loading || phase is Exporting || phase is Done || phase is Failed
}

/// The state after the inputs were handled in turn.
pub open spec fn receive_run(state: Receive, inputs: Seq<ReceiveInputView>) -> Receive
    decreases inputs.len(),
{
    if inputs.len() == 0 {
        state
    } else {
        receive_run(state, inputs.drop_last()).outcome(inputs.last()).state
    }
}

/// An empty ticket is refused at once: the fetch fails as `EmptyTicket`
/// before the store is asked or any endpoint is made, and no later input
/// brings it to the network.
pub proof fn lemma_empty_ticket(inputs: Seq<ReceiveInputView>, k: int)
    requires
        0 < k < inputs.len(),
        inputs[0] == ReceiveInputView::Ticket(Seq::<char>::empty()),
    ensures
        ({
            let start = Receive { phase: ReceivePhase::Start, total_files: 0, payload_size: 0 };
            &&& start.outcome(inputs[0]).action == ReceiveActionView::Fail(
                TransferErrorView::EmptyTicket,
            )
            &&& receive_run(start, inputs.take(k)).outcome(inputs[k]).action is Stop
        }),
    decreases k,
{
    let start = Receive { phase: ReceivePhase::Start, total_files: 0, payload_size: 0 };
    lemma_run_stays_failed(start, inputs, k);
}

/// Once the first input made the fetch fail, it stays failed.
proof fn lemma_run_stays_failed(start: Receive, inputs: Seq<ReceiveInputView>, k: int)
    requires
        0 < k <= inputs.len(),
        start.outcome(inputs[0]).state.phase is Failed,
    ensures
        receive_run(start, inputs.take(k)).phase is Failed,
    decreases k,
{
    let upto = inputs.take(k);
    assert(upto.drop_last() =~= inputs.take(k - 1));
    assert(upto.last() == inputs[k - 1]);
    if k == 1 {
        assert(inputs.take(0).len() == 0);
        assert(receive_run(start, inputs.take(0)) == start);
    } else {
        lemma_run_stays_failed(start, inputs, k - 1);
    }
}

/// Where the store has everything, the peer is never contacted: from the
/// answer that the content is complete the fetch goes straight to loading
/// and export, and no step after it, whatever the inputs, asks for an
/// endpoint, for a connection, for sizes or for a download.
pub proof fn lemma_complete_skips_network(
    state: Receive,
    children: Option<u64>,
    inputs: Seq<ReceiveInputView>,
    k: int,
)
    requires
        state.phase is CheckingLocal,
        0 < k < inputs.len(),
        inputs[0] == (ReceiveInputView::Local { complete: true, children }),
    ensures
        state.outcome(inputs[0]).action is Load,
        past_network(receive_run(state, inputs.take(k)).phase),
        !receive_run(state, inputs.take(k)).outcome(inputs[k]).action.uses_network(),
    decreases k,
{
    let upto = inputs.take(k);
    assert(upto.drop_last() =~= inputs.take(k - 1));
    assert(upto.last() == inputs[k - 1]);
    if k == 1 {
        assert(inputs.take(0).len() == 0);
        assert(receive_run(state, inputs.take(0)) == state);
    } else {
        lemma_complete_skips_network(state, children, inputs, k - 1);
    }
}

} // verus!
