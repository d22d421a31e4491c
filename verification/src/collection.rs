//! Collections: the ordered list of names and content identifiers that stands
//! for a shared file or directory tree.

use iroh_blobs::format::collection::Collection;
use vstd::prelude::*;
use vstd::string::*;

use crate::sizes::capped;
use crate::text::{lemma_precedes_total, lemma_precedes_transitive, precedes, str_precedes};

verus! {

/// The collection type of iroh-blobs, of which the library sees nothing
/// inside.
#[verifier::external_type_specification]
#[verifier::external_body]
pub struct ExCollection(Collection);

/// The hash type of iroh-blobs. No signature of the library holds it: a hash
/// is held as its 32 bytes. It is declared because the collection's `Index`
/// impl names it, and the collection cannot be declared without.
#[verifier::external_type_specification]
#[verifier::external_body]
pub struct ExHash(iroh_blobs::Hash);

/// The entries of a collection in order: each a name and the 32 bytes of a
/// content identifier.
pub uninterp spec fn collection_entries(collection: Collection) -> Seq<(Seq<char>, Seq<u8>)>;

/// Calls `Collection::default` of iroh-blobs. Claimed: the collection it
/// gives has no entries.
#[verifier::external_body]
fn collection_new() -> (collection: Collection)
    ensures
        collection_entries(collection) == Seq::<(Seq<char>, Seq<u8>)>::empty(),
{
    Collection::default()
}

/// Calls `Collection::push` of iroh-blobs, with the hash made by
/// `Hash::from_bytes`. Claimed: the entry is added behind the others, which
/// stay as they are.
#[verifier::external_body]
fn collection_push(collection: &mut Collection, name: String, hash: &[u8; 32])
    ensures
        collection_entries(*final(collection)) == collection_entries(*old(collection)).push(
            (name@, hash@),
        ),
{
    collection.push(name, iroh_blobs::Hash::from_bytes(*hash))
}

/// Calls `Collection::len` of iroh-blobs. Claimed: it is the number of
/// entries.
#[verifier::external_body]
pub(crate) fn collection_len(collection: &Collection) -> (n: usize)
    ensures
        n == collection_entries(*collection).len(),
{
    collection.len()
}

/// Indexes the collection, which iroh-blobs implements by indexing its list
/// of entries, and reads the bytes of the hash with `Hash::as_bytes`.
/// Claimed: the result is a copy of the entry at `index`. The index must be
/// in range: out of range the call panics.
#[verifier::external_body]
pub(crate) fn collection_entry(collection: &Collection, index: usize) -> (entry: (String, [u8; 32]))
    requires
        index < collection_entries(*collection).len(),
    ensures
        (entry.0@, entry.1@) == collection_entries(*collection)[index as int],
{
    let (name, hash) = &collection[index];
    (name.clone(), *hash.as_bytes())
}

/// A file that was taken into the store: its name in the collection, its
/// content identifier and its size in bytes.
#[derive(Debug, Clone, PartialEq, Eq)]
pub struct ImportedFile {
    pub name: String,
    pub hash: [u8; 32],
    pub size: u64,
}

/// The mathematical value of an [`ImportedFile`].
pub struct FileView {
    pub name: Seq<char>,
    pub hash: Seq<u8>,
    pub size: u64,
}

impl View for ImportedFile {
    type V = FileView;

    open spec fn view(&self) -> FileView {
        FileView { name: self.name@, hash: self.hash@, size: self.size }
    }
}

/// The views of a run of files.
pub open spec fn file_views(files: Seq<ImportedFile>) -> Seq<FileView> {
    files.map_values(|f: ImportedFile| f@)
}

/// `sorted` with `file` put behind the last entry whose name does not come
/// after the name of `file`.
pub open spec fn insert_by_name(sorted: Seq<FileView>, file: FileView) -> Seq<FileView>
    decreases sorted.len(),
{
    if sorted.len() > 0 && precedes(file.name, sorted.last().name) {
        insert_by_name(sorted.drop_last(), file).push(sorted.last())
    } else {
        sorted.push(file)
    }
}

/// The files in the order of their names; files of one name keep the order
/// they came in.
pub open spec fn sorted_by_name(files: Seq<FileView>) -> Seq<FileView>
    decreases files.len(),
{
    if files.len() == 0 {
        Seq::<FileView>::empty()
    } else {
        insert_by_name(sorted_by_name(files.drop_last()), files.last())
    }
}

/// No file has a name that comes before the name of an earlier file.
pub open spec fn ordered_by_name(files: Seq<FileView>) -> bool {
    forall|i: int, j: int|
        0 <= i < j < files.len() ==> !precedes((#[trigger] files[j]).name, (#[trigger] files[i]).name)
}

/// The entries that the files make: name and content identifier of each.
pub open spec fn entries_of(files: Seq<FileView>) -> Seq<(Seq<char>, Seq<u8>)> {
    files.map_values(|f: FileView| (f.name, f.hash))
}

/// The sum of the sizes.
pub open spec fn total_size(files: Seq<FileView>) -> nat
    decreases files.len(),
{
    if files.len() == 0 {
        0
    } else {
        total_size(files.drop_last()) + files.last().size as nat
    }
}

/// Where `file` goes into `sorted`: everything from place `k` on comes after
/// it by name, and what stands before place `k` does not.
proof fn lemma_insert_at(sorted: Seq<FileView>, file: FileView, k: int)
    requires
        0 <= k <= sorted.len(),
        forall|j: int| k <= j < sorted.len() ==> precedes(file.name, (#[trigger] sorted[j]).name),
        k > 0 ==> !precedes(file.name, sorted[k - 1].name),
    ensures
        insert_by_name(sorted, file) == sorted.insert(k, file),
    decreases sorted.len(),
{
    if k == sorted.len() {
        assert(sorted.insert(k, file) =~= sorted.push(file));
    } else {
        let front = sorted.drop_last();
        assert(precedes(file.name, sorted[sorted.len() - 1].name));
        assert forall|j: int| k <= j < front.len() implies precedes(
            file.name,
            (#[trigger] front[j]).name,
        ) by {
            assert(front[j] == sorted[j]);
        }
        lemma_insert_at(front, file, k);
        assert(front.insert(k, file).push(sorted.last()) =~= sorted.insert(k, file));
    }
}

/// Putting a file into an ordered run leaves it ordered, and adds the file
/// and nothing else.
pub proof fn lemma_insert_by_name(sorted: Seq<FileView>, file: FileView)
    requires
        ordered_by_name(sorted),
    ensures
        ordered_by_name(insert_by_name(sorted, file)),
        insert_by_name(sorted, file).to_multiset() == sorted.to_multiset().insert(file),
        insert_by_name(sorted, file).len() == sorted.len() + 1,
    decreases sorted.len(),
{
    broadcast use vstd::seq_lib::group_to_multiset_ensures;

    if sorted.len() > 0 && precedes(file.name, sorted.last().name) {
        let front = sorted.drop_last();
        let last = sorted.last();
        assert forall|i: int, j: int| 0 <= i < j < front.len() implies !precedes(
            (#[trigger] front[j]).name,
            (#[trigger] front[i]).name,
        ) by {
            assert(front[i] == sorted[i] && front[j] == sorted[j]);
        }
        lemma_insert_by_name(front, file);
        let inner = insert_by_name(front, file);
        let out = inner.push(last);
        assert forall|i: int, j: int| 0 <= i < j < out.len() implies !precedes(
            (#[trigger] out[j]).name,
            (#[trigger] out[i]).name,
        ) by {
            if j == out.len() - 1 {
                // every entry of `inner` is `file` or an entry of `front`
                assert(inner.to_multiset().count(inner[i]) > 0);
                if inner[i] == file {
                    lemma_precedes_total(file.name, last.name);
                } else {
                    assert(front.to_multiset().count(inner[i]) > 0);
                    let w = choose|w: int| 0 <= w < front.len() && front[w] == inner[i];
                    assert(sorted[w] == inner[i]);
                    assert(!precedes(sorted[sorted.len() - 1].name, sorted[w].name));
                }
            }
        }
        assert(sorted =~= front.push(last));
        assert(out.to_multiset() =~= sorted.to_multiset().insert(file));
    } else {
        let out = sorted.push(file);
        assert forall|i: int, j: int| 0 <= i < j < out.len() implies !precedes(
            (#[trigger] out[j]).name,
            (#[trigger] out[i]).name,
        ) by {
            if j == out.len() - 1 {
                // `file` does not come before the last entry, and so before none
                let last = sorted.last();
                if precedes(file.name, sorted[i].name) {
                    if i < sorted.len() - 1 {
                        assert(!precedes(sorted[sorted.len() - 1].name, sorted[i].name));
                        lemma_precedes_total(last.name, sorted[i].name);
                        if last.name == sorted[i].name {
                        } else {
                            lemma_precedes_transitive(file.name, sorted[i].name, last.name);
                        }
                    }
                }
            }
        }
    }
}

/// Sorting gives an ordered run that holds each file as often as it came in:
/// the same files, and so the same pairs of name and content identifier.
pub proof fn lemma_sorted_by_name(files: Seq<FileView>)
    ensures
        ordered_by_name(sorted_by_name(files)),
        sorted_by_name(files).to_multiset() == files.to_multiset(),
        sorted_by_name(files).len() == files.len(),
    decreases files.len(),
{
    broadcast use vstd::seq_lib::group_to_multiset_ensures;

    if files.len() > 0 {
        let front = files.drop_last();
        lemma_sorted_by_name(front);
        lemma_insert_by_name(sorted_by_name(front), files.last());
        assert(files =~= front.push(files.last()));
    }
}

/// Putting a file into a run adds its pair of name and content identifier
/// to the pairs of the run, and nothing else.
proof fn lemma_entries_of_insert(sorted: Seq<FileView>, file: FileView)
    ensures
        entries_of(insert_by_name(sorted, file)).to_multiset() == entries_of(
            sorted,
        ).to_multiset().insert((file.name, file.hash)),
    decreases sorted.len(),
{
    broadcast use vstd::seq_lib::group_to_multiset_ensures;

    if sorted.len() > 0 && precedes(file.name, sorted.last().name) {
        let front = sorted.drop_last();
        let last = sorted.last();
        let inner = insert_by_name(front, file);
        lemma_entries_of_insert(front, file);
        assert(entries_of(inner.push(last)) =~= entries_of(inner).push((last.name, last.hash)));
        assert(sorted =~= front.push(last));
        assert(entries_of(sorted) =~= entries_of(front).push((last.name, last.hash)));
        assert(entries_of(inner.push(last)).to_multiset() =~= entries_of(
            sorted,
        ).to_multiset().insert((file.name, file.hash)));
    } else {
        assert(entries_of(sorted.push(file)) =~= entries_of(sorted).push((file.name, file.hash)));
    }
}

/// A collection holds the pairs of name and content identifier of its files,
/// each as often as it came in: sorting loses and adds none.
pub proof fn lemma_collection_holds_the_files(files: Seq<FileView>)
    ensures
        entries_of(sorted_by_name(files)).to_multiset() == entries_of(files).to_multiset(),
    decreases files.len(),
{
    broadcast use vstd::seq_lib::group_to_multiset_ensures;

    if files.len() == 0 {
        assert(entries_of(sorted_by_name(files)) =~= entries_of(files));
    } else {
        let front = files.drop_last();
        lemma_collection_holds_the_files(front);
        lemma_entries_of_insert(sorted_by_name(front), files.last());
        assert(files =~= front.push(files.last()));
        assert(entries_of(files) =~= entries_of(front).push((files.last().name, files.last().hash)));
    }
}

/// Each file comes strictly before every later one by name.
pub open spec fn strictly_ordered_by_name(files: Seq<FileView>) -> bool {
    forall|i: int, j: int|
        0 <= i < j < files.len() ==> precedes((#[trigger] files[i]).name, (#[trigger] files[j]).name)
}

/// No two files share a name.
pub open spec fn names_differ(files: Seq<FileView>) -> bool {
    forall|i: int, j: int|
        0 <= i < j < files.len() ==> (#[trigger] files[i]).name != (#[trigger] files[j]).name
}

/// Whether some file among `files` is named `name`.
pub open spec fn has_name(files: Seq<FileView>, name: Seq<char>) -> bool {
    exists|k: int| 0 <= k < files.len() && (#[trigger] files[k]).name == name
}

/// The names of the files.
pub open spec fn names_of(files: Seq<FileView>) -> Set<Seq<char>> {
    Set::new(|name: Seq<char>| has_name(files, name))
}

/// Putting a file with a new name into a strictly ordered run leaves it
/// strictly ordered, and adds the name of the file and no other.
proof fn lemma_insert_strictly(sorted: Seq<FileView>, file: FileView)
    requires
        strictly_ordered_by_name(sorted),
        !has_name(sorted, file.name),
    ensures
        strictly_ordered_by_name(insert_by_name(sorted, file)),
        names_of(insert_by_name(sorted, file)) == names_of(sorted).insert(file.name),
    decreases sorted.len(),
{
    let out = insert_by_name(sorted, file);
    if sorted.len() > 0 && precedes(file.name, sorted.last().name) {
        let front = sorted.drop_last();
        let last = sorted.last();
        assert forall|i: int, j: int| 0 <= i < j < front.len() implies precedes(
            (#[trigger] front[i]).name,
            (#[trigger] front[j]).name,
        ) by {
            assert(front[i] == sorted[i] && front[j] == sorted[j]);
        }
        assert(!has_name(front, file.name)) by {
            if has_name(front, file.name) {
                let k = choose|k: int| 0 <= k < front.len() && (#[trigger] front[k]).name == file.name;
                assert(sorted[k].name == file.name);
            }
        }
        lemma_insert_strictly(front, file);
        let inner = insert_by_name(front, file);
        assert(out == inner.push(last));
        assert forall|i: int, j: int| 0 <= i < j < out.len() implies precedes(
            (#[trigger] out[i]).name,
            (#[trigger] out[j]).name,
        ) by {
            if j == out.len() - 1 {
                assert(has_name(inner, inner[i].name));
                assert(names_of(inner).contains(inner[i].name));
                if inner[i].name != file.name {
                    assert(names_of(front).contains(inner[i].name));
                    let k = choose|k: int|
                        0 <= k < front.len() && (#[trigger] front[k]).name == inner[i].name;
                    assert(sorted[k] == front[k]);
                    assert(precedes(sorted[k].name, sorted[sorted.len() - 1].name));
                }
            } else {
                assert(inner[i] == out[i] && inner[j] == out[j]);
            }
        }
        assert forall|name: Seq<char>|
            has_name(out, name) <==> has_name(sorted, name) || name == file.name by {
            assert(names_of(inner).contains(name) <==> names_of(front).contains(name) || name
                == file.name);
            if has_name(out, name) {
                let k = choose|k: int| 0 <= k < out.len() && (#[trigger] out[k]).name == name;
                if k == out.len() - 1 {
                    assert(sorted[sorted.len() - 1].name == name);
                } else {
                    assert(inner[k].name == name);
                    assert(has_name(inner, name));
                    if name != file.name {
                        let m = choose|m: int|
                            0 <= m < front.len() && (#[trigger] front[m]).name == name;
                        assert(sorted[m].name == name);
                    }
                }
            }
            if has_name(sorted, name) {
                let k = choose|k: int| 0 <= k < sorted.len() && (#[trigger] sorted[k]).name == name;
                if k == sorted.len() - 1 {
                    assert(out[out.len() - 1].name == name);
                } else {
                    assert(front[k].name == name);
                    assert(names_of(front).contains(name));
                    assert(has_name(inner, name));
                    let m = choose|m: int|
                        0 <= m < inner.len() && (#[trigger] inner[m]).name == name;
                    assert(out[m].name == name);
                }
            }
            if name == file.name {
                assert(names_of(inner).contains(name));
                assert(has_name(inner, name));
                let m = choose|m: int| 0 <= m < inner.len() && (#[trigger] inner[m]).name == name;
                assert(out[m].name == name);
            }
        }
        assert(names_of(out) =~= names_of(sorted).insert(file.name));
    } else {
        assert(out == sorted.push(file));
        assert forall|i: int, j: int| 0 <= i < j < out.len() implies precedes(
            (#[trigger] out[i]).name,
            (#[trigger] out[j]).name,
        ) by {
            if j == out.len() - 1 {
                let last = sorted[sorted.len() - 1];
                assert(has_name(sorted, sorted[i].name));
                lemma_precedes_total(last.name, file.name);
                assert(has_name(sorted, last.name));
                if i < sorted.len() - 1 {
                    assert(precedes(sorted[i].name, sorted[sorted.len() - 1].name));
                    lemma_precedes_transitive(sorted[i].name, last.name, file.name);
                }
            } else {
                assert(sorted[i] == out[i] && sorted[j] == out[j]);
            }
        }
        assert forall|name: Seq<char>|
            has_name(out, name) <==> has_name(sorted, name) || name == file.name by {
            if has_name(out, name) {
                let k = choose|k: int| 0 <= k < out.len() && (#[trigger] out[k]).name == name;
                if k < sorted.len() {
                    assert(sorted[k].name == name);
                }
            }
            if has_name(sorted, name) {
                let k = choose|k: int| 0 <= k < sorted.len() && (#[trigger] sorted[k]).name == name;
                assert(out[k].name == name);
            }
            if name == file.name {
                assert(out[out.len() - 1].name == name);
            }
        }
        assert(names_of(out) =~= names_of(sorted).insert(file.name));
    }
}

/// Files of which no two share a name are sorted into strictly ascending
/// order: each name comes strictly before every later one, so that the
/// collection holds no name twice.
pub proof fn lemma_sorted_strictly(files: Seq<FileView>)
    requires
        names_differ(files),
    ensures
        strictly_ordered_by_name(sorted_by_name(files)),
        names_of(sorted_by_name(files)) == names_of(files),
    decreases files.len(),
{
    if files.len() > 0 {
        let front = files.drop_last();
        let last = files.last();
        assert forall|i: int, j: int| 0 <= i < j < front.len() implies (#[trigger] front[i]).name
            != (#[trigger] front[j]).name by {
            assert(front[i] == files[i] && front[j] == files[j]);
        }
        lemma_sorted_strictly(front);
        assert(names_of(sorted_by_name(front)).contains(last.name) == has_name(front, last.name));
        assert(!has_name(front, last.name)) by {
            if has_name(front, last.name) {
                let k = choose|k: int| 0 <= k < front.len() && (#[trigger] front[k]).name == last.name;
                assert(files[k].name != files[files.len() - 1].name);
            }
        }
        assert(!has_name(sorted_by_name(front), last.name));
        lemma_insert_strictly(sorted_by_name(front), last);
        assert forall|name: Seq<char>|
            names_of(sorted_by_name(files)).contains(name) <==> has_name(files, name) by {
            assert(names_of(sorted_by_name(front)).contains(name) == has_name(front, name));
            if has_name(files, name) {
                let k = choose|k: int| 0 <= k < files.len() && (#[trigger] files[k]).name == name;
                if k < files.len() - 1 {
                    assert(front[k].name == name);
                }
            }
            if has_name(front, name) {
                let k = choose|k: int| 0 <= k < front.len() && (#[trigger] front[k]).name == name;
                assert(files[k].name == name);
            }
            if name == last.name {
                assert(files[files.len() - 1].name == name);
            }
        }
        assert(names_of(sorted_by_name(files)) =~= names_of(files));
    } else {
        assert(names_of(sorted_by_name(files)) =~= names_of(files));
    }
}

/// The files sorted by name; files of one name keep the order they came in.
pub fn sort_by_name(files: &Vec<ImportedFile>) -> (sorted: Vec<ImportedFile>)
    ensures
        file_views(sorted@) == sorted_by_name(file_views(files@)),
{
    let ghost all = file_views(files@);
    let mut sorted: Vec<ImportedFile> = Vec::new();
    let mut done: usize = 0;
    proof {
        assert(all.take(0) =~= Seq::<FileView>::empty());
        assert(file_views(sorted@) =~= Seq::<FileView>::empty());
    }
    while done < files.len()
        invariant
            all == file_views(files@),
            done <= files.len(),
            file_views(sorted@) == sorted_by_name(all.take(done as int)),
        decreases files.len() - done,
    {
        let ghost before_sorted = file_views(sorted@);
        let file = ImportedFile {
            name: files[done].name.clone(),
            hash: files[done].hash,
            size: files[done].size,
        };
        assert(file@ == all[done as int]);
        let mut k: usize = sorted.len();
        while k > 0 && str_precedes(file.name.as_str(), sorted[k - 1].name.as_str())
            invariant
                k <= sorted.len(),
                file_views(sorted@) == before_sorted,
                forall|j: int|
                    k <= j < sorted.len() ==> precedes(
                        file@.name,
                        (#[trigger] file_views(sorted@)[j]).name,
                    ),
            decreases k,
        {
            k -= 1;
        }
        proof {
            lemma_insert_at(before_sorted, file@, k as int);
        }
        sorted.insert(k, file);
        proof {
            assert(file_views(sorted@) =~= before_sorted.insert(k as int, all[done as int]));
            let upto = all.take(done + 1);
            assert(upto.drop_last() =~= all.take(done as int));
            assert(upto.last() == all[done as int]);
        }
        done += 1;
    }
    assert(all.take(done as int) =~= all);
    sorted
}

/// The sum of the sizes of the files, or the largest number that fits where
/// the sum does not.
pub fn sum_sizes(files: &Vec<ImportedFile>) -> (sum: u64)
    ensures
        sum == capped(total_size(file_views(files@))),
{
    let ghost all = file_views(files@);
    let mut sum: u64 = 0;
    let mut i: usize = 0;
    assert(all.take(0) =~= Seq::<FileView>::empty());
    while i < files.len()
        invariant
            all == file_views(files@),
            i <= files.len(),
            sum == capped(total_size(all.take(i as int))),
        decreases files.len() - i,
    {
        proof {
            let upto = all.take(i + 1);
            assert(upto.drop_last() =~= all.take(i as int));
            assert(upto.last() == files@[i as int]@);
        }
        sum = sum.saturating_add(files[i].size);
        i += 1;
    }
    assert(all.take(i as int) =~= all);
    sum
}

/// The collection of the files, in the order of their names.
pub fn assemble(files: &Vec<ImportedFile>) -> (collection: Collection)
    ensures
        collection_entries(collection) == entries_of(sorted_by_name(file_views(files@))),
{
    let sorted = sort_by_name(files);
    let ghost all = file_views(sorted@);
    let mut collection = collection_new();
    let mut i: usize = 0;
    assert(entries_of(all.take(0)) =~= Seq::<(Seq<char>, Seq<u8>)>::empty());
    while i < sorted.len()
        invariant
            all == file_views(sorted@),
            i <= sorted.len(),
            collection_entries(collection) == entries_of(all.take(i as int)),
        decreases sorted.len() - i,
    {
        collection_push(&mut collection, sorted[i].name.clone(), &sorted[i].hash);
        proof {
            assert(entries_of(all.take(i + 1)) =~= entries_of(all.take(i as int)).push(
                (sorted@[i as int].name@, sorted@[i as int].hash@),
            ));
        }
        i += 1;
    }
    assert(all.take(i as int) =~= all);
    collection
}

/// The entries of a collection, as names and content identifiers.
pub fn entries(collection: &Collection) -> (out: Vec<(String, [u8; 32])>)
    ensures
        out@.len() == collection_entries(*collection).len(),
        forall|i: int|
            0 <= i < out@.len() ==> (out@[i].0@, out@[i].1@) == #[trigger] collection_entries(
                *collection,
            )[i],
{
    let n = collection_len(collection);
    let mut out: Vec<(String, [u8; 32])> = Vec::new();
    let mut i: usize = 0;
    while i < n
        invariant
            n == collection_entries(*collection).len(),
            i <= n,
            out@.len() == i,
            forall|j: int|
                0 <= j < i ==> (out@[j].0@, out@[j].1@) == #[trigger] collection_entries(
                    *collection,
                )[j],
        decreases n - i,
    {
        out.push(collection_entry(collection, i));
        i += 1;
    }
    out
}

} // verus!
