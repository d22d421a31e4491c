//! The send path: from a file or directory to a ticket.
//!
//! The file system, the store and the network are worked by whoever holds
//! them. That side reports each thing that happened as an input to
//! [`import`] and [`send`], which decide what is shown to the user and what
//! is to be done next, and to an [`ImportTrack`] for each file that the store
//! takes in.

use iroh_blobs::format::collection::Collection;
use vstd::prelude::*;
use vstd::string::*;

use crate::collection::{
    assemble, collection_entries, entries_of, file_views, lemma_collection_holds_the_files,
    sorted_by_name, sum_sizes, total_size, FileView, ImportedFile,
};
use crate::comms::{message_event, EventView, MessageOut, MessageType};
use crate::error::{TransferError, TransferErrorView};
use crate::paths::{
    canonical_text, canonicalized_path_to_string, first_rejected, lemma_name_below_directory,
    name_below, normal_parts, part_views, safe_component, segments, valid_name, PathPart,
    PathPartView,
};
use crate::sizes::{capped, capped_usize, to_usize};
use crate::text::{glue, decimal, decimal_string};
use crate::tags::TagKind;
use crate::ticket::{blob_ticket_text, ticket_content, Peer};

verus! {

/// What a walk of the file system found at one place.
#[derive(Debug, Clone, PartialEq, Eq)]
pub struct WalkEntry {
    /// Whether it is a regular file; directories and symbolic links are not.
    pub is_file: bool,
    /// The components of its path, counted from the parent of the path that
    /// is shared.
    pub relative: Vec<PathPart>,
    /// Its full path.
    pub path: String,
}

/// The mathematical value of a [`WalkEntry`].
pub struct WalkEntryView {
    pub is_file: bool,
    pub relative: Seq<PathPartView>,
    pub path: Seq<char>,
}

impl View for WalkEntry {
    type V = WalkEntryView;

    open spec fn view(&self) -> WalkEntryView {
        WalkEntryView {
            is_file: self.is_file,
            relative: part_views(self.relative@),
            path: self.path@,
        }
    }
}

/// The views of a run of entries.
pub open spec fn walk_views(entries: Seq<WalkEntry>) -> Seq<WalkEntryView> {
    entries.map_values(|e: WalkEntry| e@)
}

/// A file that is to be taken into the store: its name in the collection and
/// its full path.
#[derive(Debug, Clone, PartialEq, Eq)]
pub struct DataSource {
    pub name: String,
    pub path: String,
}

/// The mathematical value of a [`DataSource`].
pub struct DataSourceView {
    pub name: Seq<char>,
    pub path: Seq<char>,
}

impl View for DataSource {
    type V = DataSourceView;

    open spec fn view(&self) -> DataSourceView {
        DataSourceView { name: self.name@, path: self.path@ }
    }
}

/// The views of a run of sources.
pub open spec fn source_views(sources: Seq<DataSource>) -> Seq<DataSourceView> {
    sources.map_values(|s: DataSource| s@)
}

impl WalkEntryView {
    /// Whether the entry can be shared: it is no regular file, and so is
    /// passed over, or each component of its path is accepted in a relative
    /// name.
    pub open spec fn admitted(self) -> bool {
        !self.is_file || first_rejected(self.relative, true) is None
    }
}

/// The sources that the entries give: one for each regular file, in the
/// order of the walk, named by its relative path.
pub open spec fn sources_of(entries: Seq<WalkEntryView>) -> Seq<DataSourceView>
    decreases entries.len(),
{
    if entries.len() == 0 {
        Seq::<DataSourceView>::empty()
    } else if entries.last().is_file {
        sources_of(entries.drop_last()).push(
            DataSourceView {
                name: canonical_text(entries.last().relative),
                path: entries.last().path,
            },
        )
    } else {
        sources_of(entries.drop_last())
    }
}

/// The first entry that cannot be shared, if there is one.
pub open spec fn first_refused(entries: Seq<WalkEntryView>) -> Option<int> {
    if exists|i: int| 0 <= i < entries.len() && !(#[trigger] entries[i]).admitted() {
        Some(
            choose|i: int|
                0 <= i < entries.len() && !(#[trigger] entries[i]).admitted() && forall|j: int|
                    0 <= j < i ==> (#[trigger] entries[j]).admitted(),
        )
    } else {
        None
    }
}

/// The error that sharing the entries ends with, if one of them cannot be
/// shared: the text of the leftmost component that is not accepted, in the
/// first such entry.
pub open spec fn refusal(entries: Seq<WalkEntryView>) -> Option<TransferErrorView> {
    match first_refused(entries) {
        None => None,
        Some(k) => Some(
            TransferErrorView::InvalidPathComponent(
                entries[k].relative[first_rejected(entries[k].relative, true)->0].text(),
            ),
        ),
    }
}

/// Where some entry cannot be shared, `first_refused` names the first one.
proof fn lemma_first_refused(entries: Seq<WalkEntryView>, k: int)
    requires
        0 <= k < entries.len(),
        !entries[k].admitted(),
        forall|j: int| 0 <= j < k ==> (#[trigger] entries[j]).admitted(),
    ensures
        first_refused(entries) == Some(k),
{
    let i = choose|i: int|
        0 <= i < entries.len() && !(#[trigger] entries[i]).admitted() && forall|j: int|
            0 <= j < i ==> (#[trigger] entries[j]).admitted();
    assert(i == k) by {
        if i < k {
            assert(entries[i].admitted());
        } else if k < i {
            assert(entries[k].admitted());
        }
    }
}

/// Flattens what a walk found into the list of files to take in. Entries
/// that are no regular files are passed over. A file whose path holds a
/// component that is not accepted ends the whole transfer.
pub fn data_sources(entries: &Vec<WalkEntry>) -> (r: Result<Vec<DataSource>, TransferError>)
    ensures
        r is Ok <==> refusal(walk_views(entries@)) is None,
        r matches Ok(sources) ==> source_views(sources@) == sources_of(walk_views(entries@)),
        r matches Err(e) ==> refusal(walk_views(entries@)) == Some(e@),
{
    let ghost all = walk_views(entries@);
    let mut sources: Vec<DataSource> = Vec::new();
    let mut i: usize = 0;
    proof {
        assert(all.take(0) =~= Seq::<WalkEntryView>::empty());
        assert(source_views(sources@) =~= Seq::<DataSourceView>::empty());
    }
    while i < entries.len()
        invariant
            all == walk_views(entries@),
            i <= entries.len(),
            forall|j: int| 0 <= j < i ==> (#[trigger] all[j]).admitted(),
            source_views(sources@) == sources_of(all.take(i as int)),
        decreases entries.len() - i,
    {
        proof {
            let upto = all.take(i + 1);
            assert(upto.drop_last() =~= all.take(i as int));
            assert(upto.last() == all[i as int]);
            assert(all[i as int] == entries@[i as int]@);
        }
        if entries[i].is_file {
            match canonicalized_path_to_string(&entries[i].relative, true) {
                Ok(name) => {
                    let ghost before = source_views(sources@);
                    sources.push(DataSource { name, path: entries[i].path.clone() });
                    assert(source_views(sources@) =~= before.push(
                        DataSourceView {
                            name: canonical_text(all[i as int].relative),
                            path: all[i as int].path,
                        },
                    ));
                },
                Err(e) => {
                    proof {
                        lemma_first_refused(all, i as int);
                    }
                    return Err(e);
                },
            }
        }
        i += 1;
    }
    assert(all.take(i as int) =~= all);
    Ok(sources)
}

/// A file with its name put behind the name of the directory `dir`.
pub open spec fn file_below(dir: Seq<char>, file: FileView) -> FileView {
    FileView { name: name_below(dir, file.name), hash: file.hash, size: file.size }
}

/// The files with their names put behind the name of the directory `dir`.
pub open spec fn files_below(dir: Seq<char>, files: Seq<FileView>) -> Seq<FileView> {
    files.map_values(|f: FileView| file_below(dir, f))
}

/// The names on the way out and back: where every file of a collection has
/// a valid name and is written below the directory `dir` segment by segment,
/// a walk of that directory that meets each file under the name of the
/// directory and the ordinary components of those segments refuses nothing
/// and gives each file its name again, behind the name of the directory.
pub proof fn lemma_names_survive_export(
    dir: Seq<char>,
    names: Seq<Seq<char>>,
    entries: Seq<WalkEntryView>,
)
    requires
        safe_component(dir),
        entries.len() == names.len(),
        forall|i: int| 0 <= i < names.len() ==> valid_name(#[trigger] names[i]),
        forall|i: int|
            0 <= i < entries.len() ==> (#[trigger] entries[i]).is_file && entries[i].relative
                == normal_parts(seq![dir] + segments(names[i])),
    ensures
        refusal(entries) is None,
        sources_of(entries).len() == names.len(),
        forall|i: int|
            0 <= i < names.len() ==> (#[trigger] sources_of(entries)[i]).name == name_below(
                dir,
                names[i],
            ),
    decreases entries.len(),
{
    assert forall|i: int| 0 <= i < entries.len() implies (#[trigger] entries[i]).admitted() by {
        lemma_name_below_directory(dir, names[i]);
    }
    if entries.len() > 0 {
        let front = entries.drop_last();
        let front_names = names.drop_last();
        assert forall|i: int| 0 <= i < front_names.len() implies valid_name(
            #[trigger] front_names[i],
        ) by {
            assert(front_names[i] == names[i]);
        }
        assert forall|i: int| 0 <= i < front.len() implies (#[trigger] front[i]).is_file
            && front[i].relative == normal_parts(seq![dir] + segments(front_names[i])) by {
            assert(front[i] == entries[i]);
            assert(front_names[i] == names[i]);
        }
        lemma_names_survive_export(dir, front_names, front);
        lemma_name_below_directory(dir, names[names.len() - 1]);
        assert forall|i: int| 0 <= i < names.len() implies (#[trigger] sources_of(
            entries,
        )[i]).name == name_below(dir, names[i]) by {
            if i < names.len() - 1 {
                assert(sources_of(entries)[i] == sources_of(front)[i]);
                assert(front_names[i] == names[i]);
            }
        }
    }
}

/// Out and back: a collection whose names are valid, written below a
/// directory and imported again by sharing that directory, holds the same
/// content identifiers under the same names, each name now behind the name of
/// the directory: names are taken against the parent of what is shared.
///
/// Two things are taken from outside: that the walk of the directory meets
/// each file under the name of the directory `dir` and the ordinary
/// components of the segments of its name, and that the store gives each
/// file the content identifier it was written from. `files` are the files of
/// the collection, `entries` is what the walk finds, and `added` are the
/// files as they come back from the store.
pub proof fn lemma_export_import_round_trip(
    dir: Seq<char>,
    files: Seq<FileView>,
    entries: Seq<WalkEntryView>,
    added: Seq<FileView>,
)
    requires
        safe_component(dir),
        forall|i: int| 0 <= i < files.len() ==> valid_name((#[trigger] files[i]).name),
        entries.len() == files.len(),
        forall|i: int|
            0 <= i < entries.len() ==> (#[trigger] entries[i]).is_file && entries[i].relative
                == normal_parts(seq![dir] + segments(files[i].name)),
        added.len() == files.len(),
        forall|i: int|
            0 <= i < added.len() ==> (#[trigger] added[i]).name == sources_of(entries)[i].name
                && added[i].hash == files[i].hash,
    ensures
        refusal(entries) is None,
        entries_of(sorted_by_name(added)).to_multiset() == entries_of(
            files_below(dir, files),
        ).to_multiset(),
{
    let names = files.map_values(|f: FileView| f.name);
    assert forall|i: int| 0 <= i < names.len() implies valid_name(#[trigger] names[i]) by {
        assert(names[i] == files[i].name);
    }
    assert forall|i: int| 0 <= i < entries.len() implies (#[trigger] entries[i]).is_file
        && entries[i].relative == normal_parts(seq![dir] + segments(names[i])) by {
        assert(names[i] == files[i].name);
    }
    lemma_names_survive_export(dir, names, entries);
    assert forall|i: int| 0 <= i < added.len() implies #[trigger] entries_of(added)[i]
        == entries_of(files_below(dir, files))[i] by {
        assert(added[i].name == sources_of(entries)[i].name);
        assert(sources_of(entries)[i].name == name_below(dir, names[i]));
    }
    assert(entries_of(added) =~= entries_of(files_below(dir, files)));
    lemma_collection_holds_the_files(added);
}

/// One report of the store while it takes a file in.
#[derive(Debug)]
pub enum AddItem {
    /// The size of the file.
    Size(u64),
    /// The bytes copied so far.
    CopyProgress(u64),
    /// The file is copied.
    CopyDone,
    /// The bytes hashed so far.
    OutboardProgress(u64),
    /// Taking the file in failed, for this cause.
    Error(String),
    /// The file is in the store under this content identifier.
    Done([u8; 32]),
}

/// The mathematical value of an [`AddItem`].
pub enum AddItemView {
    Size(u64),
    CopyProgress(u64),
    CopyDone,
    OutboardProgress(u64),
    Error(Seq<char>),
    Done(Seq<u8>),
}

impl View for AddItem {
    type V = AddItemView;

    open spec fn view(&self) -> AddItemView {
        match self {
            AddItem::Size(n) => AddItemView::Size(*n),
            AddItem::CopyProgress(n) => AddItemView::CopyProgress(*n),
            AddItem::CopyDone => AddItemView::CopyDone,
            AddItem::OutboardProgress(n) => AddItemView::OutboardProgress(*n),
            AddItem::Error(c) => AddItemView::Error(c@),
            AddItem::Done(h) => AddItemView::Done(h@),
        }
    }
}

/// What a report on a file comes to.
#[derive(Debug, PartialEq, Eq)]
pub enum ImportStep {
    /// More reports are to come.
    Continue,
    /// The file is in the store.
    Finished(ImportedFile),
    /// Taking the file in failed; the whole import fails with it.
    Failed(TransferError),
}

/// The mathematical value of an [`ImportStep`].
pub enum ImportStepView {
    Continue,
    Finished(FileView),
    Failed(TransferErrorView),
}

impl View for ImportStep {
    type V = ImportStepView;

    open spec fn view(&self) -> ImportStepView {
        match self {
            ImportStep::Continue => ImportStepView::Continue,
            ImportStep::Finished(f) => ImportStepView::Finished(f@),
            ImportStep::Failed(e) => ImportStepView::Failed(e@),
        }
    }
}

/// The progress of one file on its way into the store. Its track is named
/// like the file.
#[derive(Debug, Clone, PartialEq, Eq)]
pub struct ImportTrack {
    pub name: String,
    /// The size of the file, once the store has reported it.
    pub size: u64,
}

/// The mathematical value of an [`ImportTrack`].
pub struct ImportTrackView {
    pub name: Seq<char>,
    pub size: u64,
}

impl View for ImportTrack {
    type V = ImportTrackView;

    open spec fn view(&self) -> ImportTrackView {
        ImportTrackView { name: self.name@, size: self.size }
    }
}

impl ImportTrackView {
    /// The track after the report.
    pub open spec fn next(self, item: AddItemView) -> ImportTrackView {
        match item {
            AddItemView::Size(size) => ImportTrackView { size, ..self },
            _ => self,
        }
    }

    /// What the report comes to.
    pub open spec fn step(self, item: AddItemView) -> ImportStepView {
        match item {
            AddItemView::Error(cause) => ImportStepView::Failed(
                TransferErrorView::StreamError("error importing "@ + self.name + ": "@ + cause),
            ),
            AddItemView::Done(hash) => ImportStepView::Finished(
                FileView { name: self.name, hash, size: self.size },
            ),
            _ => ImportStepView::Continue,
        }
    }

    /// The events that the report gives: each report becomes one event on
    /// the track of the file, but a failure, which is reported as the error
    /// of the import.
    pub open spec fn events(self, item: AddItemView) -> Seq<EventView> {
        match item {
            AddItemView::Size(size) => seq![EventView::Progress(self.name, 0, capped_usize(size))],
            AddItemView::CopyProgress(offset) => seq![
                EventView::Progress(self.name, capped_usize(offset), capped_usize(self.size)),
            ],
            AddItemView::CopyDone => seq![EventView::ProgressFinished(self.name)],
            AddItemView::OutboardProgress(offset) => seq![
                EventView::Progress(self.name, capped_usize(offset), capped_usize(self.size)),
            ],
            AddItemView::Error(_) => Seq::<EventView>::empty(),
            AddItemView::Done(_) => seq![EventView::ProgressComplete(self.name)],
        }
    }
}

impl ImportTrack {
    /// The track of the file `name`, of which nothing is known yet.
    pub fn new(name: String) -> (track: Self)
        ensures
            track@ == (ImportTrackView { name: name@, size: 0 }),
    {
        ImportTrack { name, size: 0 }
    }

    /// Takes one report of the store on the file and queues the event that
    /// it gives.
    pub fn on_item(&mut self, item: AddItem, mess: &mut MessageOut) -> (step: ImportStep)
        ensures
            final(self)@ == old(self)@.next(item@),
            step@ == old(self)@.step(item@),
            final(mess)@ == old(mess)@ + old(self)@.events(item@),
    {
        let ghost before = mess@;
        let step = match item {
            AddItem::Size(size) => {
                self.size = size;
                mess.progress(self.name.as_str(), 0, to_usize(size));
                ImportStep::Continue
            },
            AddItem::CopyProgress(offset) => {
                mess.progress(self.name.as_str(), to_usize(offset), to_usize(self.size));
                ImportStep::Continue
            },
            AddItem::CopyDone => {
                mess.complete(self.name.as_str());
                ImportStep::Continue
            },
            AddItem::OutboardProgress(offset) => {
                mess.progress(self.name.as_str(), to_usize(offset), to_usize(self.size));
                ImportStep::Continue
            },
            AddItem::Error(cause) => {
                let head = glue("error importing ", self.name.as_str());
                let named = glue(head.as_str(), ": ");
                let line = glue(named.as_str(), cause.as_str());
                assert(line@ =~= "error importing "@ + self.name@ + ": "@ + cause@);
                ImportStep::Failed(TransferError::StreamError(line))
            },
            AddItem::Done(hash) => {
                mess.progress_finish(self.name.as_str());
                ImportStep::Finished(ImportedFile { name: self.name.clone(), hash, size: self.size })
            },
        };
        assert(mess@ =~= before + old(self)@.events(item@));
        step
    }

    /// The error of a file whose reports ended before the store said that it
    /// has the file.
    pub fn on_end(&self) -> (error: TransferError)
        ensures
            error@ == TransferErrorView::StreamError("import stream ended without a tag"@),
    {
        TransferError::StreamError(String::from_str("import stream ended without a tag"))
    }
}

/// Calls `get` of num_cpus: the number of logical processors that this
/// process may use. Claimed, as its documentation says: it is at least one.
#[verifier::external_body]
fn cpu_count() -> (n: usize)
    ensures
        n >= 1,
{
    num_cpus::get()
}

/// How far an import has come.
#[derive(Debug, Clone, Copy, PartialEq, Eq, Structural)]
pub enum ImportPhase {
    /// Nothing was done yet.
    Start,
    /// The file system is being walked.
    Walking,
    /// The files are being taken into the store.
    Adding,
    /// The collection is being stored.
    Storing,
    /// The import succeeded.
    Done,
    /// The import failed.
    Failed,
}

/// The state of an import.
#[derive(Debug, Clone, Copy, PartialEq, Eq, Structural)]
pub struct Import {
    pub phase: ImportPhase,
    /// The bytes of all files together, once they are in the store.
    pub size: u64,
}

/// What happened since the last step of an import.
#[derive(Debug)]
pub enum ImportInput {
    /// The import is to begin.
    Start,
    /// The path that is shared does not exist.
    Missing(String),
    /// The walk ended; this is what it found, in its order.
    Walked(Vec<WalkEntry>),
    /// Every file is in the store.
    Added(Vec<ImportedFile>),
    /// The collection is stored under this content identifier.
    Stored([u8; 32]),
    /// The step that was asked for could not be done.
    Failed(TransferError),
    /// The user stopped the transfer.
    Cancel,
}

/// The mathematical value of an [`ImportInput`].
pub enum ImportInputView {
    Start,
    Missing(Seq<char>),
    Walked(Seq<WalkEntryView>),
    Added(Seq<FileView>),
    Stored(Seq<u8>),
    Failed(TransferErrorView),
    Cancel,
}

impl View for ImportInput {
    type V = ImportInputView;

    open spec fn view(&self) -> ImportInputView {
        match self {
            ImportInput::Start => ImportInputView::Start,
            ImportInput::Missing(path) => ImportInputView::Missing(path@),
            ImportInput::Walked(entries) => ImportInputView::Walked(walk_views(entries@)),
            ImportInput::Added(files) => ImportInputView::Added(file_views(files@)),
            ImportInput::Stored(root) => ImportInputView::Stored(root@),
            ImportInput::Failed(e) => ImportInputView::Failed(e@),
            ImportInput::Cancel => ImportInputView::Cancel,
        }
    }
}

/// What is to be done next in an import.
#[derive(Debug)]
pub enum ImportAction {
    /// Walk the path that is shared.
    Walk,
    /// Take these files into the store, at most `parallelism` at a time.
    Add { sources: Vec<DataSource>, parallelism: usize },
    /// Store this collection.
    Store(Collection),
    /// Nothing is left to do: the collection is stored under `root`, and
    /// its files hold `size` bytes.
    Finish { root: [u8; 32], size: u64 },
    /// Give up with this error.
    Fail(TransferError),
    /// The import was over before this input came.
    Stop,
}

/// The mathematical value of an [`ImportAction`]. Of a collection it holds
/// the entries.
pub enum ImportActionView {
    Walk,
    Add { sources: Seq<DataSourceView>, parallelism: usize },
    Store(Seq<(Seq<char>, Seq<u8>)>),
    Finish { root: Seq<u8>, size: u64 },
    Fail(TransferErrorView),
    Stop,
}

impl View for ImportAction {
    type V = ImportActionView;

    open spec fn view(&self) -> ImportActionView {
        match self {
            ImportAction::Walk => ImportActionView::Walk,
            ImportAction::Add { sources, parallelism } => ImportActionView::Add {
                sources: source_views(sources@),
                parallelism: *parallelism,
            },
            ImportAction::Store(c) => ImportActionView::Store(collection_entries(*c)),
            ImportAction::Finish { root, size } => ImportActionView::Finish {
                root: root@,
                size: *size,
            },
            ImportAction::Fail(e) => ImportActionView::Fail(e@),
            ImportAction::Stop => ImportActionView::Stop,
        }
    }
}

/// What one step of an import comes to: the state after it and what is to be
/// done next.
pub struct ImportOutcome {
    pub state: Import,
    pub action: ImportActionView,
}

impl Import {
    /// The import gives up with `error`.
    pub open spec fn fails(self, error: TransferErrorView) -> ImportOutcome {
        ImportOutcome {
            state: Import { phase: ImportPhase::Failed, ..self },
            action: ImportActionView::Fail(error),
        }
    }

    /// What the step on `input` comes to, where the machine allows
    /// `parallelism` files at a time.
    ///
    /// An import that is over stays as it is. A failure that is reported
    /// ends the import with that error, and an import that the user stops ends
    /// as cancelled; nothing that was taken in or written is undone.
    /// Otherwise each phase awaits its own input, and any other input ends
    /// the import as a stream error.
    pub open spec fn outcome(self, input: ImportInputView, parallelism: usize) -> ImportOutcome {
        if self.phase is Done || self.phase is Failed {
            ImportOutcome { state: self, action: ImportActionView::Stop }
        } else if input is Failed {
            self.fails(input->Failed_0)
        } else if input is Cancel {
            self.fails(TransferErrorView::Cancelled)
        } else {
            match (self.phase, input) {
                (ImportPhase::Start, ImportInputView::Start) => ImportOutcome {
                    state: Import { phase: ImportPhase::Walking, ..self },
                    action: ImportActionView::Walk,
                },
                (ImportPhase::Walking, ImportInputView::Missing(path)) => self.fails(
                    TransferErrorView::NotFound(path),
                ),
                (ImportPhase::Walking, ImportInputView::Walked(entries)) => {
                    match refusal(entries) {
                        Some(error) => self.fails(error),
                        None => ImportOutcome {
                            state: Import { phase: ImportPhase::Adding, ..self },
                            action: ImportActionView::Add {
                                sources: sources_of(entries),
                                parallelism,
                            },
                        },
                    }
                },
                (ImportPhase::Adding, ImportInputView::Added(files)) => ImportOutcome {
                    state: Import { phase: ImportPhase::Storing, size: capped(total_size(files)) },
                    action: ImportActionView::Store(entries_of(sorted_by_name(files))),
                },
                (ImportPhase::Storing, ImportInputView::Stored(root)) => ImportOutcome {
                    state: Import { phase: ImportPhase::Done, ..self },
                    action: ImportActionView::Finish { root, size: self.size },
                },
                _ => self.fails(TransferErrorView::StreamError("unexpected event"@)),
            }
        }
    }

    /// An import that has not begun.
    pub fn new() -> (state: Self)
        ensures
            state == (Import { phase: ImportPhase::Start, size: 0 }),
    {
        Import { phase: ImportPhase::Start, size: 0 }
    }

    fn fail(&mut self, error: TransferError) -> (action: ImportAction)
        ensures
            *final(self) == old(self).fails(error@).state,
            action@ == old(self).fails(error@).action,
    {
        self.phase = ImportPhase::Failed;
        ImportAction::Fail(error)
    }

    fn unexpected(&mut self) -> (action: ImportAction)
        ensures
            *final(self) == old(self).fails(TransferErrorView::StreamError("unexpected event"@)).state,
            action@ == old(self).fails(TransferErrorView::StreamError("unexpected event"@)).action,
    {
        self.fail(TransferError::StreamError(String::from_str("unexpected event")))
    }
}

/// One step of an import: takes what happened and says what is to be done
/// next. The number of files taken in at a time is the number of processors
/// of the machine, which is at least one.
pub fn import(state: &mut Import, input: ImportInput) -> (action: ImportAction)
    ensures
        exists|parallelism: usize|
            parallelism >= 1 && *final(state) == (#[trigger] old(state).outcome(
                input@,
                parallelism,
            )).state && action@ == old(state).outcome(input@, parallelism).action,
{
    let parallelism = cpu_count();
    let action = match state.phase {
        ImportPhase::Done | ImportPhase::Failed => ImportAction::Stop,
        ImportPhase::Start => match input {
            ImportInput::Failed(e) => state.fail(e),
            ImportInput::Cancel => state.fail(TransferError::Cancelled),
            ImportInput::Start => {
                state.phase = ImportPhase::Walking;
                ImportAction::Walk
            },
            _ => state.unexpected(),
        },
        ImportPhase::Walking => match input {
            ImportInput::Failed(e) => state.fail(e),
            ImportInput::Cancel => state.fail(TransferError::Cancelled),
            ImportInput::Missing(path) => state.fail(TransferError::NotFound(path)),
            ImportInput::Walked(entries) => match data_sources(&entries) {
                Ok(sources) => {
                    state.phase = ImportPhase::Adding;
                    ImportAction::Add { sources, parallelism }
                },
                Err(e) => state.fail(e),
            },
            _ => state.unexpected(),
        },
        ImportPhase::Adding => match input {
            ImportInput::Failed(e) => state.fail(e),
            ImportInput::Cancel => state.fail(TransferError::Cancelled),
            ImportInput::Added(files) => {
                state.size = sum_sizes(&files);
                state.phase = ImportPhase::Storing;
                ImportAction::Store(assemble(&files))
            },
            _ => state.unexpected(),
        },
        ImportPhase::Storing => match input {
            ImportInput::Failed(e) => state.fail(e),
            ImportInput::Cancel => state.fail(TransferError::Cancelled),
            ImportInput::Stored(root) => {
                state.phase = ImportPhase::Done;
                ImportAction::Finish { root, size: state.size }
            },
            _ => state.unexpected(),
        },
    };
    assert(*state == old(state).outcome(input@, parallelism).state);
    assert(action@ == old(state).outcome(input@, parallelism).action);
    action
}

/// How far a send has come.
#[derive(Debug, Clone, Copy, PartialEq, Eq, Structural)]
pub enum SendPhase {
    /// Nothing was done yet.
    Start,
    /// The files are being imported.
    Importing,
    /// The root is being tagged in the store.
    Tagging,
    /// The local endpoint is being created and its address found.
    Binding,
    /// The ticket is out.
    Done,
    /// The send failed.
    Failed,
}

/// The state of a send.
pub struct SendState {
    pub phase: SendPhase,
    /// The content identifier of the collection, once it is stored.
    pub root: [u8; 32],
    /// The bytes of all files together, once they are in the store.
    pub size: u64,
}

/// The mathematical value of a [`SendState`].
pub struct SendStateView {
    pub phase: SendPhase,
    pub root: Seq<u8>,
    pub size: u64,
}

impl View for SendState {
    type V = SendStateView;

    open spec fn view(&self) -> SendStateView {
        SendStateView { phase: self.phase, root: self.root@, size: self.size }
    }
}

/// What happened since the last step of a send.
#[derive(Debug)]
pub enum SendInput {
    /// The send is to begin.
    Start,
    /// The import succeeded: the collection is stored under `root`, and its
    /// files hold `size` bytes.
    Imported { root: [u8; 32], size: u64 },
    /// The root was tagged.
    Tagged,
    /// The local endpoint serves the store and can be reached as this peer.
    Bound(Peer),
    /// The step that was asked for could not be done.
    Failed(TransferError),
    /// The user stopped the transfer.
    Cancel,
}

/// The mathematical value of a [`SendInput`]. Of the local peer it holds the
/// identity.
pub enum SendInputView {
    Start,
    Imported { root: Seq<u8>, size: u64 },
    Tagged,
    Bound(Seq<u8>),
    Failed(TransferErrorView),
    Cancel,
}

impl View for SendInput {
    type V = SendInputView;

    open spec fn view(&self) -> SendInputView {
        match self {
            SendInput::Start => SendInputView::Start,
            SendInput::Imported { root, size } => SendInputView::Imported {
                root: root@,
                size: *size,
            },
            SendInput::Tagged => SendInputView::Tagged,
            SendInput::Bound(peer) => SendInputView::Bound(peer.spec_id()),
            SendInput::Failed(e) => SendInputView::Failed(e@),
            SendInput::Cancel => SendInputView::Cancel,
        }
    }
}

/// What is to be done next in a send.
#[derive(Debug, PartialEq, Eq)]
pub enum SendAction {
    /// Import the path that is shared.
    Import,
    /// Tag the root in the store under a new label of this kind.
    Tag(TagKind),
    /// Create the local endpoint, serve the store on it and find its
    /// address.
    Bind,
    /// Nothing is left to do: the ticket is out.
    Finish,
    /// Give up with this error.
    Fail(TransferError),
    /// The send was over before this input came.
    Stop,
}

/// The mathematical value of a [`SendAction`].
pub enum SendActionView {
    Import,
    Tag(TagKind),
    Bind,
    Finish,
    Fail(TransferErrorView),
    Stop,
}

impl View for SendAction {
    type V = SendActionView;

    open spec fn view(&self) -> SendActionView {
        match self {
            SendAction::Import => SendActionView::Import,
            SendAction::Tag(kind) => SendActionView::Tag(*kind),
            SendAction::Bind => SendActionView::Bind,
            SendAction::Finish => SendActionView::Finish,
            SendAction::Fail(e) => SendActionView::Fail(e@),
            SendAction::Stop => SendActionView::Stop,
        }
    }
}

/// What one step of a send comes to: the state after it, what is to be done
/// next, and the events for the user.
pub struct SendOutcome {
    pub state: SendStateView,
    pub action: SendActionView,
    pub events: Seq<EventView>,
}

impl SendStateView {
    /// The send gives up with `error`.
    pub open spec fn fails(self, error: TransferErrorView) -> SendOutcome {
        SendOutcome {
            state: SendStateView { phase: SendPhase::Failed, ..self },
            action: SendActionView::Fail(error),
            events: Seq::<EventView>::empty(),
        }
    }

    /// The send moves to `phase` with `action` and `events`.
    pub open spec fn moves(
        self,
        phase: SendPhase,
        action: SendActionView,
        events: Seq<EventView>,
    ) -> SendOutcome {
        SendOutcome { state: SendStateView { phase, ..self }, action, events }
    }

    /// What the step on `input` comes to, where `ticket` is the text of the
    /// ticket that is made once the address is known.
    ///
    /// A send that is over stays as it is. A failure that is reported
    /// ends the send with that error, and a send that the user stops ends
    /// as cancelled; nothing that was taken in or written is undone.
    /// Otherwise each phase awaits its own input, and any other input ends
    /// the send as a stream error.
    pub open spec fn outcome(self, input: SendInputView, ticket: Seq<char>) -> SendOutcome {
        if self.phase is Done || self.phase is Failed {
            SendOutcome {
                state: self,
                action: SendActionView::Stop,
                events: Seq::<EventView>::empty(),
            }
        } else if input is Failed {
            self.fails(input->Failed_0)
        } else if input is Cancel {
            self.fails(TransferErrorView::Cancelled)
        } else {
            match (self.phase, input) {
                (SendPhase::Start, SendInputView::Start) => self.moves(
                    SendPhase::Importing,
                    SendActionView::Import,
                    Seq::<EventView>::empty(),
                ),
                (SendPhase::Importing, SendInputView::Imported { root, size }) => SendOutcome {
                    state: SendStateView { phase: SendPhase::Tagging, root, size },
                    action: SendActionView::Tag(TagKind::Outgoing),
                    events: Seq::<EventView>::empty(),
                },
                (SendPhase::Tagging, SendInputView::Tagged) => self.moves(
                    SendPhase::Binding,
                    SendActionView::Bind,
                    seq![message_event(decimal(self.size as nat), MessageType::Good)],
                ),
                (SendPhase::Binding, SendInputView::Bound(_)) => self.moves(
                    SendPhase::Done,
                    SendActionView::Finish,
                    seq![
                        message_event("Local endpoint created..."@, MessageType::Info),
                        EventView::SendTicket(ticket),
                    ],
                ),
                _ => self.fails(TransferErrorView::StreamError("unexpected event"@)),
            }
        }
    }
}

impl SendState {
    /// A send that has not begun.
    pub fn new() -> (state: Self)
        ensures
            state@ == (SendStateView { phase: SendPhase::Start, root: seq![0u8; 32], size: 0 }),
    {
        let state = SendState { phase: SendPhase::Start, root: [0u8;32], size: 0 };
        assert(state.root@ =~= seq![0u8; 32]);
        state
    }

    fn fail(&mut self, error: TransferError) -> (action: SendAction)
        ensures
            final(self)@ == old(self)@.fails(error@).state,
            action@ == old(self)@.fails(error@).action,
    {
        self.phase = SendPhase::Failed;
        SendAction::Fail(error)
    }

    fn unexpected(&mut self) -> (action: SendAction)
        ensures
            final(self)@ == old(self)@.fails(
                TransferErrorView::StreamError("unexpected event"@),
            ).state,
            action@ == old(self)@.fails(TransferErrorView::StreamError("unexpected event"@)).action,
    {
        self.fail(TransferError::StreamError(String::from_str("unexpected event")))
    }
}

/// One step of a send: takes what happened, queues the events for the user
/// and says what is to be done next. The ticket that goes out once the
/// local peer is known is not empty and names that peer and the root of the
/// collection, as a collection; in every other step the text of the ticket
/// plays no part.
pub fn send(state: &mut SendState, input: SendInput, mess: &mut MessageOut) -> (action: SendAction)
    ensures
        exists|ticket: Seq<char>|
            {
                &&& old(state)@.phase is Binding && input@ is Bound ==> ticket.len() > 0
                    && ticket_content(ticket) == Some(
                    (input@->Bound_0, old(state)@.root, true),
                )
                &&& final(state)@ == (#[trigger] old(state)@.outcome(input@, ticket)).state
                &&& action@ == old(state)@.outcome(input@, ticket).action
                &&& final(mess)@ == old(mess)@ + old(state)@.outcome(input@, ticket).events
            },
{
    let ghost before = mess@;
    let ghost view = input@;
    let mut ticket = String::new();
    let action = match state.phase {
        SendPhase::Done | SendPhase::Failed => SendAction::Stop,
        SendPhase::Start => match input {
            SendInput::Failed(e) => state.fail(e),
            SendInput::Cancel => state.fail(TransferError::Cancelled),
            SendInput::Start => {
                state.phase = SendPhase::Importing;
                SendAction::Import
            },
            _ => state.unexpected(),
        },
        SendPhase::Importing => match input {
            SendInput::Failed(e) => state.fail(e),
            SendInput::Cancel => state.fail(TransferError::Cancelled),
            SendInput::Imported { root, size } => {
                state.root = root;
                state.size = size;
                state.phase = SendPhase::Tagging;
                SendAction::Tag(TagKind::Outgoing)
            },
            _ => state.unexpected(),
        },
        SendPhase::Tagging => match input {
            SendInput::Failed(e) => state.fail(e),
            SendInput::Cancel => state.fail(TransferError::Cancelled),
            SendInput::Tagged => {
                mess.correct(decimal_string(state.size).as_str());
                state.phase = SendPhase::Binding;
                SendAction::Bind
            },
            _ => state.unexpected(),
        },
        SendPhase::Binding => match input {
            SendInput::Failed(e) => state.fail(e),
            SendInput::Cancel => state.fail(TransferError::Cancelled),
            SendInput::Bound(peer) => {
                mess.info("Local endpoint created...");
                ticket = blob_ticket_text(&peer, &state.root);
                mess.send_ticket(ticket.clone());
                state.phase = SendPhase::Done;
                SendAction::Finish
            },
            _ => state.unexpected(),
        },
    };
    proof {
        let text = ticket@;
        assert(state@ == old(state)@.outcome(view, text).state);
        assert(action@ == old(state)@.outcome(view, text).action);
        assert(mess@ =~= before + old(state)@.outcome(view, text).events);
    }
    action
}

/// A send that is over stays over: whatever comes, nothing is shown and
/// nothing is asked for.
pub proof fn lemma_send_over(state: SendStateView, input: SendInputView, ticket: Seq<char>)
    requires
        state.phase is Done || state.phase is Failed,
    ensures
        state.outcome(input, ticket).state == state,
        state.outcome(input, ticket).action is Stop,
        state.outcome(input, ticket).events.len() == 0,
{
}

/// A ticket goes out only at the end of a send that did not fail: the step
/// that queues it finishes the send.
pub proof fn lemma_ticket_ends_send(
    state: SendStateView,
    input: SendInputView,
    ticket: Seq<char>,
    k: int,
)
    requires
        0 <= k < state.outcome(input, ticket).events.len(),
        state.outcome(input, ticket).events[k] is SendTicket,
    ensures
        state.phase is Binding,
        state.outcome(input, ticket).action is Finish,
        state.outcome(input, ticket).events[k] == EventView::SendTicket(ticket),
{
}

} // verus!
