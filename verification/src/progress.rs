//! The progress bars on display: one track per name, kept in the order of
//! the names.

use vstd::prelude::*;
use vstd::string::*;

use crate::text::{
    lemma_precedes_irreflexive, lemma_precedes_total, lemma_precedes_transitive, precedes,
    same_text, str_precedes,
};

verus! {

/// One named progress bar.
#[derive(Debug, Clone, PartialEq, Eq)]
pub struct ProgressBar {
    pub name: String,
    pub current: usize,
    pub total: usize,
    pub complete: bool,
}

/// What a track shows, apart from its name.
pub struct Progress {
    pub current: usize,
    pub total: usize,
    pub complete: bool,
}

impl ProgressBar {
    /// What the bar shows, apart from its name.
    pub open spec fn progress(self) -> Progress {
        Progress { current: self.current, total: self.total, complete: self.complete }
    }

    /// The part of `total` that is filled: `current`, but no more than
    /// `total`. The bar shows this part of its width, and all of it where
    /// `total` is zero.
    pub fn filled(&self) -> (n: usize)
        ensures
            n == if self.current <= self.total {
                self.current
            } else {
                self.total
            },
    {
        if self.current <= self.total {
            self.current
        } else {
            self.total
        }
    }
}

/// The names of the bars, in the order of the bars.
pub open spec fn bar_names(bars: Seq<ProgressBar>) -> Seq<Seq<char>> {
    bars.map_values(|b: ProgressBar| b.name@)
}

/// Each name comes strictly before every later one.
pub open spec fn strictly_ascending(names: Seq<Seq<char>>) -> bool {
    forall|i: int, j: int| 0 <= i < j < names.len() ==> precedes(#[trigger] names[i], #[trigger] names[j])
}

/// The tracks that a run of bars holds, by name. Where a name occurs more
/// than once, which bar stands for it is left open; in a list of bars no name
/// does.
pub open spec fn tracks_of(bars: Seq<ProgressBar>) -> Map<Seq<char>, Progress> {
    Map::new(
        |name: Seq<char>| exists|i: int| 0 <= i < bars.len() && (#[trigger] bars[i]).name@ == name,
        |name: Seq<char>| bars[index_of(bars, name)].progress(),
    )
}

/// The place of a bar named `name` among `bars`.
pub open spec fn index_of(bars: Seq<ProgressBar>, name: Seq<char>) -> int {
    choose|i: int| 0 <= i < bars.len() && (#[trigger] bars[i]).name@ == name
}

/// The tracks after `name` was reported at `current` of `total`: a new track
/// starts incomplete, a known one keeps its completion mark.
pub open spec fn upsert(
    tracks: Map<Seq<char>, Progress>,
    name: Seq<char>,
    current: usize,
    total: usize,
) -> Map<Seq<char>, Progress> {
    tracks.insert(
        name,
        Progress {
            current,
            total,
            complete: tracks.contains_key(name) && tracks[name].complete,
        },
    )
}

/// The tracks after the same report was made `times` times.
pub open spec fn upsert_times(
    tracks: Map<Seq<char>, Progress>,
    name: Seq<char>,
    current: usize,
    total: usize,
    times: nat,
) -> Map<Seq<char>, Progress>
    decreases times,
{
    if times == 0 {
        tracks
    } else {
        upsert(upsert_times(tracks, name, current, total, (times - 1) as nat), name, current, total)
    }
}

/// Reporting the same position of the same track again changes nothing:
/// after any number of identical reports, at least one, the tracks are what
/// they were after the first.
pub proof fn lemma_insert_idempotent(
    tracks: Map<Seq<char>, Progress>,
    name: Seq<char>,
    current: usize,
    total: usize,
    times: nat,
)
    requires
        times >= 1,
    ensures
        upsert_times(tracks, name, current, total, times) == upsert(tracks, name, current, total),
    decreases times,
{
    if times > 1 {
        lemma_insert_idempotent(tracks, name, current, total, (times - 1) as nat);
        let once = upsert(tracks, name, current, total);
        assert(upsert(once, name, current, total) =~= once);
    } else {
        assert(upsert_times(tracks, name, current, total, 0) == tracks);
    }
}

/// In an ascending run of bars each bar is the track of its name.
proof fn lemma_track_at(bars: Seq<ProgressBar>, k: int)
    requires
        strictly_ascending(bar_names(bars)),
        0 <= k < bars.len(),
    ensures
        tracks_of(bars).contains_key(bars[k].name@),
        tracks_of(bars)[bars[k].name@] == bars[k].progress(),
{
    let name = bars[k].name@;
    assert(bars[k].name@ == name);
    assert(tracks_of(bars).contains_key(name));
    let i = index_of(bars, name);
    assert(i == k) by {
        lemma_precedes_irreflexive(name);
        if i < k {
            assert(precedes(bar_names(bars)[i], bar_names(bars)[k]));
        } else if k < i {
            assert(precedes(bar_names(bars)[k], bar_names(bars)[i]));
        }
    }
}

/// Putting a bar of the same name in the place of a bar keeps the order and
/// changes the track of that name alone.
proof fn lemma_tracks_set(bars: Seq<ProgressBar>, k: int, bar: ProgressBar)
    requires
        strictly_ascending(bar_names(bars)),
        0 <= k < bars.len(),
        bar.name@ == bars[k].name@,
    ensures
        strictly_ascending(bar_names(bars.update(k, bar))),
        tracks_of(bars.update(k, bar)) == tracks_of(bars).insert(bar.name@, bar.progress()),
{
    let after = bars.update(k, bar);
    let name = bar.name@;
    assert(bar_names(after) =~= bar_names(bars));
    lemma_track_at(bars, k);
    lemma_track_at(after, k);
    assert forall|key: Seq<char>|
        tracks_of(after).contains_key(key) <==> #[trigger] tracks_of(bars).insert(
            name,
            bar.progress(),
        ).contains_key(key) by {
        if tracks_of(after).contains_key(key) {
            let i = index_of(after, key);
            assert(bars[i].name@ == key);
        }
        if tracks_of(bars).contains_key(key) {
            let i = index_of(bars, key);
            assert(after[i].name@ == key);
        }
    }
    assert forall|key: Seq<char>| #[trigger]
        tracks_of(after).contains_key(key) implies tracks_of(after)[key] == tracks_of(bars).insert(
        name,
        bar.progress(),
    )[key] by {
        let i = index_of(after, key);
        lemma_track_at(after, i);
        if i != k {
            lemma_track_at(bars, i);
            lemma_precedes_irreflexive(key);
            if i < k {
                assert(precedes(bar_names(bars)[i], bar_names(bars)[k]));
            } else {
                assert(precedes(bar_names(bars)[k], bar_names(bars)[i]));
            }
        }
    }
    assert(tracks_of(after) =~= tracks_of(bars).insert(name, bar.progress()));
}

/// Taking a bar out keeps the order and removes the track of its name alone.
proof fn lemma_tracks_remove(bars: Seq<ProgressBar>, k: int)
    requires
        strictly_ascending(bar_names(bars)),
        0 <= k < bars.len(),
    ensures
        strictly_ascending(bar_names(bars.remove(k))),
        tracks_of(bars.remove(k)) == tracks_of(bars).remove(bars[k].name@),
{
    let after = bars.remove(k);
    let name = bars[k].name@;
    let names = bar_names(after);
    assert forall|i: int, j: int| 0 <= i < j < names.len() implies precedes(
        #[trigger] names[i],
        #[trigger] names[j],
    ) by {
        let oi = if i < k { i } else { i + 1 };
        let oj = if j < k { j } else { j + 1 };
        assert(precedes(bar_names(bars)[oi], bar_names(bars)[oj]));
    }
    assert forall|key: Seq<char>|
        tracks_of(after).contains_key(key) <==> #[trigger] tracks_of(bars).remove(
            name,
        ).contains_key(key) by {
        if tracks_of(after).contains_key(key) {
            let i = index_of(after, key);
            let oi = if i < k { i } else { i + 1 };
            assert(bars[oi].name@ == key);
            lemma_precedes_irreflexive(key);
            if oi < k {
                assert(precedes(bar_names(bars)[oi], bar_names(bars)[k]));
            } else {
                assert(precedes(bar_names(bars)[k], bar_names(bars)[oi]));
            }
        }
        if tracks_of(bars).contains_key(key) && key != name {
            let i = index_of(bars, key);
            if i < k {
                assert(after[i].name@ == key);
            } else {
                assert(after[i - 1].name@ == key);
            }
        }
    }
    assert forall|key: Seq<char>| #[trigger]
        tracks_of(after).contains_key(key) implies tracks_of(after)[key] == tracks_of(bars).remove(
        name,
    )[key] by {
        let i = index_of(after, key);
        lemma_track_at(after, i);
        let oi = if i < k { i } else { i + 1 };
        lemma_track_at(bars, oi);
        assert(after[i] == bars[oi]);
        lemma_precedes_irreflexive(key);
        if oi < k {
            assert(precedes(bar_names(bars)[oi], bar_names(bars)[k]));
        } else {
            assert(precedes(bar_names(bars)[k], bar_names(bars)[oi]));
        }
    }
    assert(tracks_of(after) =~= tracks_of(bars).remove(name));
}

/// A name that comes after every bar before place `k`, and neither is nor
/// comes after the bar at `k`, is the name of no bar.
proof fn lemma_absent(bars: Seq<ProgressBar>, k: int, name: Seq<char>)
    requires
        strictly_ascending(bar_names(bars)),
        0 <= k <= bars.len(),
        forall|j: int| 0 <= j < k ==> precedes(#[trigger] bars[j].name@, name),
        k < bars.len() ==> !precedes(bars[k].name@, name) && bars[k].name@ != name,
    ensures
        !tracks_of(bars).contains_key(name),
{
    if tracks_of(bars).contains_key(name) {
        let i = index_of(bars, name);
        lemma_precedes_irreflexive(name);
        if i < k {
            assert(precedes(bars[i].name@, name));
        } else if i > k {
            lemma_precedes_total(bars[k].name@, name);
            assert(precedes(bar_names(bars)[k], bar_names(bars)[i]));
        }
    }
}

/// Putting a bar with a new name into its place keeps the order and adds
/// the track of that name alone.
proof fn lemma_tracks_insert(bars: Seq<ProgressBar>, k: int, bar: ProgressBar)
    requires
        strictly_ascending(bar_names(bars)),
        0 <= k <= bars.len(),
        forall|j: int| 0 <= j < k ==> precedes(#[trigger] bars[j].name@, bar.name@),
        k < bars.len() ==> !precedes(bars[k].name@, bar.name@) && bars[k].name@ != bar.name@,
    ensures
        strictly_ascending(bar_names(bars.insert(k, bar))),
        !tracks_of(bars).contains_key(bar.name@),
        tracks_of(bars.insert(k, bar)) == tracks_of(bars).insert(bar.name@, bar.progress()),
{
    let after = bars.insert(k, bar);
    let name = bar.name@;
    let names = bar_names(after);
    assert forall|i: int, j: int| 0 <= i < j < names.len() implies precedes(
        #[trigger] names[i],
        #[trigger] names[j],
    ) by {
        if j < k {
            assert(precedes(bar_names(bars)[i], bar_names(bars)[j]));
        } else if j == k {
            assert(after[i] == bars[i]);
        } else if i == k {
            lemma_precedes_total(bars[k].name@, name);
            if j - 1 > k {
                assert(precedes(bar_names(bars)[k], bar_names(bars)[j - 1]));
                lemma_precedes_transitive(name, bars[k].name@, bars[j - 1].name@);
            }
        } else if i < k {
            assert(precedes(bar_names(bars)[i], bar_names(bars)[j - 1]));
        } else {
            assert(precedes(bar_names(bars)[i - 1], bar_names(bars)[j - 1]));
        }
    }
    lemma_absent(bars, k, name);
    lemma_track_at(after, k);
    assert forall|key: Seq<char>|
        tracks_of(after).contains_key(key) <==> #[trigger] tracks_of(bars).insert(
            name,
            bar.progress(),
        ).contains_key(key) by {
        if tracks_of(after).contains_key(key) {
            let i = index_of(after, key);
            if i < k {
                assert(bars[i].name@ == key);
            } else if i > k {
                assert(bars[i - 1].name@ == key);
            }
        }
        if tracks_of(bars).contains_key(key) {
            let i = index_of(bars, key);
            if i < k {
                assert(after[i].name@ == key);
            } else {
                assert(after[i + 1].name@ == key);
            }
        }
    }
    assert forall|key: Seq<char>| #[trigger]
        tracks_of(after).contains_key(key) implies tracks_of(after)[key] == tracks_of(bars).insert(
        name,
        bar.progress(),
    )[key] by {
        let i = index_of(after, key);
        lemma_track_at(after, i);
        if i < k {
            lemma_track_at(bars, i);
        } else if i > k {
            lemma_track_at(bars, i - 1);
        }
    }
    assert(tracks_of(after) =~= tracks_of(bars).insert(name, bar.progress()));
}

/// An ascending run of bars holds as many tracks as it has bars.
proof fn lemma_tracks_len(bars: Seq<ProgressBar>)
    requires
        strictly_ascending(bar_names(bars)),
    ensures
        tracks_of(bars).dom().finite(),
        tracks_of(bars).len() == bars.len(),
    decreases bars.len(),
{
    if bars.len() == 0 {
        assert(tracks_of(bars) =~= Map::<Seq<char>, Progress>::empty());
    } else {
        let k = bars.len() - 1;
        let front = bars.remove(k);
        lemma_tracks_remove(bars, k);
        lemma_tracks_len(front);
        lemma_track_at(bars, k);
        let name = bars[k].name@;
        assert(tracks_of(bars) =~= tracks_of(front).insert(name, bars[k].progress()));
        assert(!tracks_of(front).contains_key(name));
    }
}

/// The tracks after the track `name`, if there is one, was marked complete.
pub open spec fn mark_complete(tracks: Map<Seq<char>, Progress>, name: Seq<char>) -> Map<
    Seq<char>,
    Progress,
> {
    if tracks.contains_key(name) {
        tracks.insert(
            name,
            Progress { current: tracks[name].current, total: tracks[name].total, complete: true },
        )
    } else {
        tracks
    }
}

/// The progress bars on display. No two bars share a name, and the bars
/// stand in the order of their names.
pub struct ProgressList {
    bars: Vec<ProgressBar>,
}

impl View for ProgressList {
    type V = Map<Seq<char>, Progress>;

    /// The tracks by name.
    closed spec fn view(&self) -> Map<Seq<char>, Progress> {
        tracks_of(self.bars@)
    }
}

impl ProgressList {
    #[verifier::type_invariant]
    spec fn ordered(&self) -> bool {
        strictly_ascending(bar_names(self.bars@))
    }

    /// A list without bars.
    pub fn new() -> (list: Self)
        ensures
            list@ == Map::<Seq<char>, Progress>::empty(),
    {
        let list = ProgressList { bars: Vec::new() };
        assert(list@ =~= Map::<Seq<char>, Progress>::empty());
        list
    }

    /// The index of the first bar whose name does not come before `name`.
    fn position(&self, name: &str) -> (k: usize)
        ensures
            k <= self.bars.len(),
            forall|j: int| 0 <= j < k ==> precedes(#[trigger] self.bars[j].name@, name@),
            k < self.bars.len() ==> !precedes(self.bars[k as int].name@, name@),
    {
        let mut k: usize = 0;
        while k < self.bars.len() && str_precedes(self.bars[k].name.as_str(), name)
            invariant
                k <= self.bars.len(),
                forall|j: int| 0 <= j < k ==> precedes(#[trigger] self.bars[j].name@, name@),
            decreases self.bars.len() - k,
        {
            k += 1;
        }
        k
    }

    /// Reports the track `name` at `current` of `total`. A new track starts
    /// incomplete; a known one keeps its completion mark.
    pub fn insert(&mut self, name: String, current: usize, total: usize)
        ensures
            final(self)@ == upsert(old(self)@, name@, current, total),
    {
        proof {
            use_type_invariant(&*self);
        }
        let k = self.position(name.as_str());
        let ghost before = self.bars@;
        let mut bars: Vec<ProgressBar> = Vec::new();
        std::mem::swap(&mut bars, &mut self.bars);
        if k < bars.len() && same_text(bars[k].name.as_str(), name.as_str()) {
            let complete = bars[k].complete;
            bars.set(k, ProgressBar { name, current, total, complete });
            proof {
                lemma_tracks_set(before, k as int, bars@[k as int]);
                assert(bars@ =~= before.update(k as int, bars@[k as int]));
                lemma_track_at(before, k as int);
            }
        } else {
            bars.insert(k, ProgressBar { name, current, total, complete: false });
            proof {
                lemma_tracks_insert(before, k as int, bars@[k as int]);
                assert(bars@ =~= before.insert(k as int, bars@[k as int]));
            }
        }
        self.bars = bars;
    }

    /// Marks the track `name` complete; it stays on display. Without such a
    /// track nothing changes.
    pub fn complete(&mut self, name: String)
        ensures
            final(self)@ == mark_complete(old(self)@, name@),
    {
        proof {
            use_type_invariant(&*self);
        }
        let k = self.position(name.as_str());
        let ghost before = self.bars@;
        if k < self.bars.len() && same_text(self.bars[k].name.as_str(), name.as_str()) {
            let current = self.bars[k].current;
            let total = self.bars[k].total;
            let mut bars: Vec<ProgressBar> = Vec::new();
            std::mem::swap(&mut bars, &mut self.bars);
            bars.set(k, ProgressBar { name, current, total, complete: true });
            proof {
                lemma_tracks_set(before, k as int, bars@[k as int]);
                assert(bars@ =~= before.update(k as int, bars@[k as int]));
                lemma_track_at(before, k as int);
            }
            self.bars = bars;
        } else {
            proof {
                lemma_absent(before, k as int, name@);
            }
        }
    }

    /// Takes the track `name` off the display. Without such a track nothing
    /// changes.
    pub fn finish(&mut self, name: String)
        ensures
            final(self)@ == old(self)@.remove(name@),
    {
        proof {
            use_type_invariant(&*self);
        }
        let k = self.position(name.as_str());
        let ghost before = self.bars@;
        if k < self.bars.len() && same_text(self.bars[k].name.as_str(), name.as_str()) {
            let mut bars: Vec<ProgressBar> = Vec::new();
            std::mem::swap(&mut bars, &mut self.bars);
            let _ = bars.remove(k);
            proof {
                lemma_tracks_remove(before, k as int);
            }
            self.bars = bars;
        } else {
            proof {
                lemma_absent(before, k as int, name@);
                assert(self@ =~= old(self)@.remove(name@));
            }
        }
    }

    /// Takes every track off the display.
    pub fn clear(&mut self)
        ensures
            final(self)@ == Map::<Seq<char>, Progress>::empty(),
    {
        self.bars = Vec::new();
        assert(self@ =~= Map::<Seq<char>, Progress>::empty());
    }

    /// How many tracks are on display.
    pub fn len(&self) -> (n: usize)
        ensures
            n == self@.len(),
            self@.dom().finite(),
    {
        proof {
            use_type_invariant(self);
            lemma_tracks_len(self.bars@);
        }
        self.bars.len()
    }

    /// The bars in the order in which they are displayed: ascending by name.
    /// The bars are the tracks of the list, one bar for each.
    pub fn bars(&self) -> (bars: &Vec<ProgressBar>)
        ensures
            strictly_ascending(bar_names(bars@)),
            tracks_of(bars@) == self@,
            bars@.len() == self@.len(),
    {
        proof {
            use_type_invariant(self);
            lemma_tracks_len(self.bars@);
        }
        &self.bars
    }
}

} // verus!
