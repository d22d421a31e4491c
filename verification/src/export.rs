//! Writing the files of a collection below a target directory.
//!
//! First the whole collection is surveyed: every name is checked and every
//! target must be found free, so that an unsafe name or a target that exists
//! ends the export before any file is written. Then the files are written
//! one after the other, in the order of the collection; each target is asked
//! about once more just before its file is written, and the first failure
//! ends the export, so that no later file is touched.

use iroh_blobs::format::collection::Collection;
use vstd::prelude::*;
use vstd::string::*;

use crate::collection::{collection_entries, collection_entry, collection_len};
use crate::comms::{EventView, MessageOut};
use crate::error::{TransferError, TransferErrorView};
use crate::paths::{export_path, first_unsafe, get_export_path, segments, valid_name};
use crate::text::glue;

verus! {

/// How far an export has come.
#[derive(Debug, Clone, Copy, PartialEq, Eq, Structural)]
pub enum ExportPhase {
    /// Nothing was done yet.
    Ready,
    /// The collection is being surveyed: it is being checked whether the
    /// target of the current file exists, before any file is written.
    Surveying,
    /// It is being checked once more whether the target of the current file
    /// exists, just before the file is written.
    Checking,
    /// The current file is being written.
    Writing,
    /// Every file was written.
    Done,
    /// The export failed.
    Failed,
}

/// The state of an export.
pub struct Export {
    collection: Collection,
    target_dir: String,
    index: usize,
    phase: ExportPhase,
    target: String,
}

/// The mathematical value of an [`Export`].
pub struct ExportView {
    /// The entries of the collection: names and content identifiers.
    pub entries: Seq<(Seq<char>, Seq<u8>)>,
    /// The directory below which the files are written.
    pub target_dir: Seq<char>,
    /// The place of the current file among the entries.
    pub index: nat,
    pub phase: ExportPhase,
    /// The target of the current file, while there is one.
    pub target: Seq<char>,
}

/// One report of the store while it writes a file.
#[derive(Debug)]
pub enum ExportItem {
    /// The size of the file.
    Size(u64),
    /// The bytes written so far.
    CopyProgress(u64),
    /// The file is written.
    Done,
    /// Writing failed, for this cause.
    Error(String),
}

/// What happened since the last step of an export.
#[derive(Debug)]
pub enum ExportInput {
    /// The export is to begin.
    Start,
    /// Whether the target that was asked about exists.
    Exists(bool),
    /// The store reported on the file it writes.
    Item(ExportItem),
    /// The store's reports on the file ended.
    StreamEnded,
    /// The step that was asked for could not be done.
    Failed(TransferError),
    /// The user stopped the transfer.
    Cancel,
}

/// The mathematical value of an [`ExportInput`].
pub enum ExportInputView {
    Start,
    Exists(bool),
    ItemError(Seq<char>),
    ItemOther,
    StreamEnded,
    Failed(TransferErrorView),
    Cancel,
}

impl View for ExportInput {
    type V = ExportInputView;

    open spec fn view(&self) -> ExportInputView {
        match self {
            ExportInput::Start => ExportInputView::Start,
            ExportInput::Exists(b) => ExportInputView::Exists(*b),
            ExportInput::Item(ExportItem::Error(cause)) => ExportInputView::ItemError(cause@),
            ExportInput::Item(_) => ExportInputView::ItemOther,
            ExportInput::StreamEnded => ExportInputView::StreamEnded,
            ExportInput::Failed(e) => ExportInputView::Failed(e@),
            ExportInput::Cancel => ExportInputView::Cancel,
        }
    }
}

/// What is to be done next in an export.
#[derive(Debug, PartialEq, Eq)]
pub enum ExportAction {
    /// Find out whether this path exists.
    Check(String),
    /// Write the content with this identifier to this path, which was found
    /// free.
    Write { hash: [u8; 32], target: String },
    /// Go on reading the store's reports.
    Continue,
    /// Nothing is left to do: the export succeeded.
    Finish,
    /// Give up with this error.
    Fail(TransferError),
    /// The export was over before this input came.
    Stop,
}

/// The mathematical value of an [`ExportAction`].
pub enum ExportActionView {
    Check(Seq<char>),
    Write { hash: Seq<u8>, target: Seq<char> },
    Continue,
    Finish,
    Fail(TransferErrorView),
    Stop,
}

impl View for ExportAction {
    type V = ExportActionView;

    open spec fn view(&self) -> ExportActionView {
        match self {
            ExportAction::Check(p) => ExportActionView::Check(p@),
            ExportAction::Write { hash, target } => ExportActionView::Write {
                hash: hash@,
                target: target@,
            },
            ExportAction::Continue => ExportActionView::Continue,
            ExportAction::Finish => ExportActionView::Finish,
            ExportAction::Fail(e) => ExportActionView::Fail(e@),
            ExportAction::Stop => ExportActionView::Stop,
        }
    }
}

/// What one step of an export comes to: the state after it, what is to be
/// done next, and the events for the user.
pub struct ExportOutcome {
    pub state: ExportView,
    pub action: ExportActionView,
    pub events: Seq<EventView>,
}

/// The name of the track that shows the export.
pub open spec fn export_track() -> Seq<char> {
    "Export"@
}

impl ExportView {
    /// Whether the state can be reached: the current file is an entry while
    /// one is surveyed, checked or written, and no place lies behind the end.
    pub open spec fn wf(self) -> bool {
        &&& self.entries.len() <= usize::MAX
        &&& self.index <= self.entries.len()
        &&& (self.phase is Surveying || self.phase is Checking || self.phase is Writing)
            ==> self.index < self.entries.len()
    }

    /// The export gives up with `error`.
    pub open spec fn fails(self, error: TransferErrorView) -> ExportOutcome {
        ExportOutcome {
            state: ExportView { phase: ExportPhase::Failed, ..self },
            action: ExportActionView::Fail(error),
            events: Seq::<EventView>::empty(),
        }
    }

    /// The survey turns to the entry at `index`. Behind the last entry the
    /// survey is over, and the export turns to the first entry to write it.
    /// An entry with an unsafe name ends the export. For any other entry the
    /// target is worked out and asked about.
    pub open spec fn surveys(self, index: nat) -> ExportOutcome {
        if index >= self.entries.len() {
            self.turns_to(0)
        } else {
            let name = self.entries[index as int].0;
            if valid_name(name) {
                let target = export_path(self.target_dir, segments(name));
                ExportOutcome {
                    state: ExportView { phase: ExportPhase::Surveying, index, target, ..self },
                    action: ExportActionView::Check(target),
                    events: Seq::<EventView>::empty(),
                }
            } else {
                ExportOutcome {
                    state: ExportView { phase: ExportPhase::Failed, index, ..self },
                    action: ExportActionView::Fail(
                        TransferErrorView::InvalidPathComponent(
                            segments(name)[first_unsafe(segments(name))->0],
                        ),
                    ),
                    events: Seq::<EventView>::empty(),
                }
            }
        }
    }

    /// The export turns to the entry at `index` to write it. Behind the last
    /// entry the export is done and its track is marked so. An entry with an
    /// unsafe name ends the export. For any other entry the target is worked
    /// out and asked about.
    pub open spec fn turns_to(self, index: nat) -> ExportOutcome {
        if index >= self.entries.len() {
            ExportOutcome {
                state: ExportView { phase: ExportPhase::Done, index, ..self },
                action: ExportActionView::Finish,
                events: seq![EventView::ProgressFinished(export_track())],
            }
        } else {
            let name = self.entries[index as int].0;
            if valid_name(name) {
                let target = export_path(self.target_dir, segments(name));
                ExportOutcome {
                    state: ExportView { phase: ExportPhase::Checking, index, target, ..self },
                    action: ExportActionView::Check(target),
                    events: Seq::<EventView>::empty(),
                }
            } else {
                ExportOutcome {
                    state: ExportView { phase: ExportPhase::Failed, index, ..self },
                    action: ExportActionView::Fail(
                        TransferErrorView::InvalidPathComponent(
                            segments(name)[first_unsafe(segments(name))->0],
                        ),
                    ),
                    events: Seq::<EventView>::empty(),
                }
            }
        }
    }

    /// What the step on `input` comes to.
    ///
    /// An export that is over stays as it is. A failure that is reported
    /// ends the export with that error, and an export that the user stops ends
    /// as cancelled; nothing that was taken in or written is undone.
    /// Otherwise each phase awaits its own inputs, and any other input ends
    /// the export as a stream error.
    pub open spec fn outcome(self, input: ExportInputView) -> ExportOutcome {
        if self.phase is Done || self.phase is Failed {
            ExportOutcome {
                state: self,
                action: ExportActionView::Stop,
                events: Seq::<EventView>::empty(),
            }
        } else if input is Failed {
            self.fails(input->Failed_0)
        } else if input is Cancel {
            self.fails(TransferErrorView::Cancelled)
        } else {
            match (self.phase, input) {
                (ExportPhase::Ready, ExportInputView::Start) => self.surveys(0),
                (ExportPhase::Surveying, ExportInputView::Exists(exists)) => {
                    if exists {
                        self.fails(TransferErrorView::ExportConflict(self.target))
                    } else {
                        self.surveys(self.index + 1)
                    }
                },
                (ExportPhase::Checking, ExportInputView::Exists(exists)) => {
                    if exists {
                        self.fails(TransferErrorView::ExportConflict(self.target))
                    } else {
                        ExportOutcome {
                            state: ExportView { phase: ExportPhase::Writing, ..self },
                            action: ExportActionView::Write {
                                hash: self.entries[self.index as int].1,
                                target: self.target,
                            },
                            events: seq![
                                EventView::Progress(
                                    export_track(),
                                    (self.index + 1) as usize,
                                    self.entries.len() as usize,
                                ),
                            ],
                        }
                    }
                },
                (ExportPhase::Writing, ExportInputView::ItemError(cause)) => self.fails(
                    TransferErrorView::StreamError(
                        "error exporting "@ + self.entries[self.index as int].0 + ": "@ + cause,
                    ),
                ),
                (ExportPhase::Writing, ExportInputView::ItemOther) => ExportOutcome {
                    state: self,
                    action: ExportActionView::Continue,
                    events: Seq::<EventView>::empty(),
                },
                (ExportPhase::Writing, ExportInputView::StreamEnded) => self.turns_to(
                    self.index + 1,
                ),
                _ => self.fails(TransferErrorView::StreamError("unexpected event"@)),
            }
        }
    }
}

impl View for Export {
    type V = ExportView;

    closed spec fn view(&self) -> ExportView {
        ExportView {
            entries: collection_entries(self.collection),
            target_dir: self.target_dir@,
            index: self.index as nat,
            phase: self.phase,
            target: self.target@,
        }
    }
}

impl Export {
    #[verifier::type_invariant]
    spec fn inv(&self) -> bool {
        self@.wf()
    }

    /// An export of `collection` below `target_dir` that has not begun.
    pub fn new(collection: Collection, target_dir: String) -> (export: Self)
        ensures
            export@ == (ExportView {
                entries: collection_entries(collection),
                target_dir: target_dir@,
                index: 0,
                phase: ExportPhase::Ready,
                target: Seq::<char>::empty(),
            }),
            export@.wf(),
    {
        let _ = collection_len(&collection);
        Export {
            collection,
            target_dir,
            index: 0,
            phase: ExportPhase::Ready,
            target: String::new(),
        }
    }

    /// How far the export has come.
    pub fn phase(&self) -> (phase: ExportPhase)
        ensures
            phase == self@.phase,
            self@.wf(),
    {
        proof {
            use_type_invariant(self);
        }
        self.phase
    }

    fn fail(&mut self, error: TransferError) -> (action: ExportAction)
        ensures
            final(self)@ == old(self)@.fails(error@).state,
            action@ == old(self)@.fails(error@).action,
    {
        proof {
            use_type_invariant(&*self);
        }
        self.phase = ExportPhase::Failed;
        ExportAction::Fail(error)
    }

    fn unexpected(&mut self) -> (action: ExportAction)
        ensures
            final(self)@ == old(self)@.fails(
                TransferErrorView::StreamError("unexpected event"@),
            ).state,
            action@ == old(self)@.fails(TransferErrorView::StreamError("unexpected event"@)).action,
    {
        self.fail(TransferError::StreamError(String::from_str("unexpected event")))
    }

    /// Turns the survey to the entry at `index`.
    fn survey(&mut self, index: usize, mess: &mut MessageOut) -> (action: ExportAction)
        requires
            index <= old(self)@.entries.len(),
            old(self)@.phase is Ready,
        ensures
            final(self)@ == old(self)@.surveys(index as nat).state,
            action@ == old(self)@.surveys(index as nat).action,
            final(mess)@ == old(mess)@ + old(self)@.surveys(index as nat).events,
    {
        proof {
            use_type_invariant(&*self);
        }
        let ghost before = mess@;
        let len = collection_len(&self.collection);
        if index >= len {
            return self.turn_to(0, mess);
        }
        self.index = index;
        let entry = collection_entry(&self.collection, index);
        match get_export_path(self.target_dir.as_str(), entry.0.as_str()) {
            Ok(target) => {
                self.target = target.clone();
                self.phase = ExportPhase::Surveying;
                assert(mess@ =~= before + Seq::<EventView>::empty());
                ExportAction::Check(target)
            },
            Err(e) => {
                self.phase = ExportPhase::Failed;
                assert(mess@ =~= before + Seq::<EventView>::empty());
                ExportAction::Fail(e)
            },
        }
    }

    /// Turns to the entry at `index` to write it.
    fn turn_to(&mut self, index: usize, mess: &mut MessageOut) -> (action: ExportAction)
        requires
            index <= old(self)@.entries.len(),
            old(self)@.phase is Ready,
        ensures
            final(self)@ == old(self)@.turns_to(index as nat).state,
            action@ == old(self)@.turns_to(index as nat).action,
            final(mess)@ == old(mess)@ + old(self)@.turns_to(index as nat).events,
    {
        proof {
            use_type_invariant(&*self);
        }
        let ghost before = mess@;
        let len = collection_len(&self.collection);
        self.index = index;
        if index >= len {
            self.phase = ExportPhase::Done;
            mess.complete("Export");
            assert(mess@ =~= before + seq![EventView::ProgressFinished(export_track())]);
            return ExportAction::Finish;
        }
        let entry = collection_entry(&self.collection, index);
        match get_export_path(self.target_dir.as_str(), entry.0.as_str()) {
            Ok(target) => {
                self.target = target.clone();
                self.phase = ExportPhase::Checking;
                assert(mess@ =~= before + Seq::<EventView>::empty());
                ExportAction::Check(target)
            },
            Err(e) => {
                self.phase = ExportPhase::Failed;
                assert(mess@ =~= before + Seq::<EventView>::empty());
                ExportAction::Fail(e)
            },
        }
    }
}

/// One step of an export: takes what happened, queues the events for the
/// user and says what is to be done next.
pub fn export(state: &mut Export, input: ExportInput, mess: &mut MessageOut) -> (action:
    ExportAction)
    ensures
        final(state)@ == old(state)@.outcome(input@).state,
        action@ == old(state)@.outcome(input@).action,
        final(mess)@ == old(mess)@ + old(state)@.outcome(input@).events,
        final(state)@.wf(),
{
    let ghost before = mess@;
    let ghost out = state@.outcome(input@);
    let phase = state.phase();
    let action = match phase {
        ExportPhase::Done | ExportPhase::Failed => ExportAction::Stop,
        ExportPhase::Ready => match input {
            ExportInput::Failed(e) => state.fail(e),
            ExportInput::Cancel => state.fail(TransferError::Cancelled),
            ExportInput::Start => state.survey(0, mess),
            _ => state.unexpected(),
        },
        ExportPhase::Surveying => match input {
            ExportInput::Failed(e) => state.fail(e),
            ExportInput::Cancel => state.fail(TransferError::Cancelled),
            ExportInput::Exists(exists) => {
                if exists {
                    let target = state.target.clone();
                    state.fail(TransferError::ExportConflict(target))
                } else {
                    let next = state.index + 1;
                    state.phase = ExportPhase::Ready;
                    state.survey(next, mess)
                }
            },
            _ => state.unexpected(),
        },
        ExportPhase::Checking => match input {
            ExportInput::Failed(e) => state.fail(e),
            ExportInput::Cancel => state.fail(TransferError::Cancelled),
            ExportInput::Exists(exists) => {
                if exists {
                    let target = state.target.clone();
                    state.fail(TransferError::ExportConflict(target))
                } else {
                    let len = collection_len(&state.collection);
                    let entry = collection_entry(&state.collection, state.index);
                    mess.progress("Export", state.index + 1, len);
                    state.phase = ExportPhase::Writing;
                    ExportAction::Write { hash: entry.1, target: state.target.clone() }
                }
            },
            _ => state.unexpected(),
        },
        ExportPhase::Writing => match input {
            ExportInput::Failed(e) => state.fail(e),
            ExportInput::Cancel => state.fail(TransferError::Cancelled),
            ExportInput::Item(ExportItem::Error(cause)) => {
                let entry = collection_entry(&state.collection, state.index);
                let head = glue("error exporting ", entry.0.as_str());
                let named = glue(head.as_str(), ": ");
                let line = glue(named.as_str(), cause.as_str());
                assert(line@ =~= "error exporting "@ + entry.0@ + ": "@ + cause@);
                state.fail(TransferError::StreamError(line))
            },
            ExportInput::Item(_) => ExportAction::Continue,
            ExportInput::StreamEnded => {
                let next = state.index + 1;
                state.phase = ExportPhase::Ready;
                state.turn_to(next, mess)
            },
            _ => state.unexpected(),
        },
    };
    proof {
        assert(mess@ =~= before + out.events);
        use_type_invariant(&*state);
    }
    action
}

/// An export that is over stays over: whatever comes, nothing is shown and
/// nothing is asked for. After a failure, such as a target that exists, no
/// file is checked or written any more.
pub proof fn lemma_export_over(state: ExportView, input: ExportInputView)
    requires
        state.phase is Done || state.phase is Failed,
    ensures
        state.outcome(input).state == state,
        state.outcome(input).action is Stop,
        state.outcome(input).events.len() == 0,
{
}

/// A file is written only to a target that was just found free, and that
/// target is where its name leads below the target directory: a step asks
/// for a write only in answer to the report that the target it asked about
/// does not exist.
pub proof fn lemma_write_follows_check(state: ExportView, input: ExportInputView)
    requires
        state.outcome(input).action is Write,
    ensures
        state.phase is Checking,
        input == ExportInputView::Exists(false),
        state.outcome(input).action == (ExportActionView::Write {
            hash: state.entries[state.index as int].1,
            target: state.target,
        }),
{
}

/// How far a phase lies along the way of an export.
pub open spec fn stage(phase: ExportPhase) -> nat {
    match phase {
        ExportPhase::Ready => 0,
        ExportPhase::Surveying => 1,
        ExportPhase::Checking => 2,
        ExportPhase::Writing => 2,
        ExportPhase::Done => 3,
        ExportPhase::Failed => 3,
    }
}

/// The export moves forward only: no step leads back to an earlier stage or,
/// within the survey or the writing, to an earlier file. The position that a
/// step reports on the export track is the place of the file it is about to
/// write, counted from one.
pub proof fn lemma_export_moves_forward(state: ExportView, input: ExportInputView, k: int)
    requires
        state.wf(),
    ensures
        state.outcome(input).state.wf(),
        state.outcome(input).state.entries == state.entries,
        stage(state.outcome(input).state.phase) >= stage(state.phase),
        stage(state.outcome(input).state.phase) == stage(state.phase) && !(state.outcome(
            input,
        ).state.phase is Failed) ==> state.outcome(input).state.index >= state.index,
        0 <= k < state.outcome(input).events.len() && state.outcome(input).events[k] is Progress
            ==> state.outcome(input).events[k] == EventView::Progress(
            export_track(),
            (state.index + 1) as usize,
            state.entries.len() as usize,
        ) && state.outcome(input).action is Write,
{
}

/// The survey goes through the collection entry by entry: it comes to the
/// next entry, or to its end, only by the report that the target of the
/// current entry does not exist.
pub proof fn lemma_survey_advances(state: ExportView, input: ExportInputView)
    requires
        state.wf(),
        state.phase is Surveying,
        !(state.outcome(input).state.phase is Failed),
    ensures
        input == ExportInputView::Exists(false),
        state.outcome(input).state.phase is Surveying ==> state.outcome(input).state.index
            == state.index + 1,
        !(state.outcome(input).state.phase is Surveying) ==> state.index + 1
            == state.entries.len(),
{
    match input {
        ExportInputView::Exists(exists) => {
            if !exists {
                let next = (state.index + 1) as nat;
                assert(state.outcome(input) == state.surveys(next));
                if next >= state.entries.len() {
                    assert(state.surveys(next) == state.turns_to(0));
                }
            }
        },
        ExportInputView::Failed(_) => {},
        ExportInputView::Cancel => {},
        ExportInputView::Start => {},
        ExportInputView::ItemError(_) => {},
        ExportInputView::ItemOther => {},
        ExportInputView::StreamEnded => {},
    }
}

/// The state after the inputs were handled in turn.
pub open spec fn export_run(state: ExportView, inputs: Seq<ExportInputView>) -> ExportView
    decreases inputs.len(),
{
    if inputs.len() == 0 {
        state
    } else {
        export_run(state, inputs.drop_last()).outcome(inputs.last()).state
    }
}

/// Whether, in the run of the inputs from `state`, the survey was told that
/// the target of the entry at `entry` does not exist.
pub open spec fn found_free(state: ExportView, inputs: Seq<ExportInputView>, entry: int) -> bool {
    exists|j: int|
        0 <= j < inputs.len() && inputs[j] == ExportInputView::Exists(false) && (#[trigger] export_run(
            state,
            inputs.take(j),
        )).phase is Surveying && export_run(state, inputs.take(j)).index == entry
}

/// How many entries the survey has found free in a state: those before the
/// current one during the survey, and all of them once files are written.
pub open spec fn surveyed(state: ExportView) -> int {
    match state.phase {
        ExportPhase::Ready => 0,
        ExportPhase::Surveying => state.index as int,
        ExportPhase::Checking => state.entries.len() as int,
        ExportPhase::Writing => state.entries.len() as int,
        ExportPhase::Done => state.entries.len() as int,
        ExportPhase::Failed => 0,
    }
}

/// What was found free stays found free as the run goes on.
proof fn lemma_found_free_stays(
    state: ExportView,
    inputs: Seq<ExportInputView>,
    k: int,
    entry: int,
)
    requires
        0 <= k < inputs.len(),
        found_free(state, inputs.take(k), entry),
    ensures
        found_free(state, inputs.take(k + 1), entry),
{
    let shorter = inputs.take(k);
    let longer = inputs.take(k + 1);
    let j = choose|j: int|
        0 <= j < shorter.len() && shorter[j] == ExportInputView::Exists(false) && (#[trigger] export_run(
            state,
            shorter.take(j),
        )).phase is Surveying && export_run(state, shorter.take(j)).index == entry;
    assert(shorter.take(j) =~= longer.take(j));
    assert(longer[j] == shorter[j]);
    assert(export_run(state, longer.take(j)).phase is Surveying);
}

/// Nothing is written before every target was found free: in any run of an
/// export from its beginning, once a file is checked for writing or written,
/// or the export is done, the survey was told of every entry of the
/// collection that its target does not exist. So a target that exists,
/// wherever in the collection it stands, ends the export before the first
/// write.
pub proof fn lemma_survey_precedes_writing(
    start: ExportView,
    inputs: Seq<ExportInputView>,
    k: int,
)
    requires
        start.wf(),
        start.phase is Ready,
        start.index == 0,
        0 <= k <= inputs.len(),
    ensures
        export_run(start, inputs.take(k)).wf(),
        export_run(start, inputs.take(k)).entries == start.entries,
        forall|entry: int|
            0 <= entry < surveyed(export_run(start, inputs.take(k))) ==> found_free(
                start,
                inputs.take(k),
                entry,
            ),
    decreases k,
{
    if k == 0 {
        assert(inputs.take(0).len() == 0);
    } else {
        let shorter = inputs.take(k - 1);
        let longer = inputs.take(k);
        assert(longer.drop_last() =~= shorter);
        assert(longer.last() == inputs[k - 1]);
        lemma_survey_precedes_writing(start, inputs, k - 1);
        let before = export_run(start, shorter);
        let after = export_run(start, longer);
        assert(after == before.outcome(inputs[k - 1]).state);
        assert forall|entry: int| 0 <= entry < surveyed(after) implies found_free(
            start,
            longer,
            entry,
        ) by {
            if entry < surveyed(before) {
                lemma_found_free_stays(start, inputs, k - 1, entry);
            } else {
                // the step itself found the entry free
                assert(before.phase is Surveying);
                assert(before.index == entry);
                assert(inputs[k - 1] == ExportInputView::Exists(false));
                assert(longer.take(k - 1) =~= shorter);
                assert(longer[k - 1] == inputs[k - 1]);
                assert(export_run(start, longer.take(k - 1)).phase is Surveying);
            }
        }
    }
}

/// A target that exists ends the export as a conflict, whatever else the
/// collection holds, in the survey and just before a write alike.
pub proof fn lemma_conflict_ends_export(state: ExportView)
    requires
        state.phase is Surveying || state.phase is Checking,
    ensures
        state.outcome(ExportInputView::Exists(true)).action == ExportActionView::Fail(
            TransferErrorView::ExportConflict(state.target),
        ),
        state.outcome(ExportInputView::Exists(true)).state.phase is Failed,
{
}

} // verus!
