//! Names of files inside a collection, and the rules that keep import and
//! export inside the directory they were pointed at.
//!
//! A name is a relative path written with `/` between its segments. A path of
//! the file system is handed to the library as its components, one
//! [`PathPart`] each.

use vstd::prelude::*;
use vstd::string::*;

use crate::error::{TransferError, TransferErrorView};
use crate::text::{chars_of, same_text};

verus! {

/// Whether `c` separates path segments on some platform.
pub open spec fn is_separator(c: char) -> bool {
    c == '/' || c == '\\'
}

/// Whether a separator occurs in `s`.
pub open spec fn has_separator(s: Seq<char>) -> bool {
    exists|i: int| 0 <= i < s.len() && is_separator(#[trigger] s[i])
}

/// A segment that may stand in a name: it holds no separator and is neither
/// `.` nor `..`.
pub open spec fn safe_component(s: Seq<char>) -> bool {
    !has_separator(s) && s != seq!['.'] && s != seq!['.', '.']
}

/// The segments of `name`: the pieces between its `/` characters. A name
/// without `/` is its own single segment, the empty name included.
pub open spec fn segments(name: Seq<char>) -> Seq<Seq<char>>
    decreases name.len(),
{
    if name.len() == 0 {
        seq![Seq::<char>::empty()]
    } else {
        let init = segments(name.drop_last());
        if name.last() == '/' {
            init.push(Seq::<char>::empty())
        } else {
            init.update(init.len() - 1, init.last().push(name.last()))
        }
    }
}

/// The texts joined with one `/` between neighbours.
pub open spec fn join_names(parts: Seq<Seq<char>>) -> Seq<char>
    decreases parts.len(),
{
    if parts.len() == 0 {
        Seq::<char>::empty()
    } else if parts.len() == 1 {
        parts[0]
    } else {
        join_names(parts.drop_last()) + seq!['/'] + parts.last()
    }
}

/// A name is valid when each of its segments is safe.
pub open spec fn valid_name(name: Seq<char>) -> bool {
    forall|i: int| 0 <= i < segments(name).len() ==> safe_component(#[trigger] segments(name)[i])
}

/// The views of a run of strings.
pub open spec fn texts(v: Seq<String>) -> Seq<Seq<char>> {
    v.map_values(|s: String| s@)
}

/// A name has at least one segment.
pub proof fn lemma_segments_nonempty(name: Seq<char>)
    ensures
        segments(name).len() >= 1,
    decreases name.len(),
{
    if name.len() > 0 {
        lemma_segments_nonempty(name.drop_last());
    }
}

/// No segment of a name holds a `/`.
pub proof fn lemma_segments_hold_no_slash(name: Seq<char>)
    ensures
        forall|i: int, j: int|
            0 <= i < segments(name).len() && 0 <= j < segments(name)[i].len() ==> (
            #[trigger] segments(name)[i][j]) != '/',
    decreases name.len(),
{
    if name.len() > 0 {
        lemma_segments_hold_no_slash(name.drop_last());
        lemma_segments_nonempty(name.drop_last());
    }
}

/// Joining the segments of a name gives the name back.
pub proof fn lemma_join_segments(name: Seq<char>)
    ensures
        join_names(segments(name)) == name,
    decreases name.len(),
{
    if name.len() == 0 {
        assert(join_names(segments(name)) =~= name);
    } else {
        let front = name.drop_last();
        let init = segments(front);
        lemma_join_segments(front);
        lemma_segments_nonempty(front);
        if name.last() == '/' {
            let all = init.push(Seq::<char>::empty());
            assert(all.drop_last() =~= init);
            assert(join_names(all) =~= front + seq!['/']);
            assert(front + seq!['/'] =~= name);
        } else {
            let grown = init.last().push(name.last());
            let all = init.update(init.len() - 1, grown);
            if init.len() == 1 {
                assert(join_names(init) == init[0]);
                assert(join_names(all) == grown);
                assert(grown =~= name);
            } else {
                assert(all.drop_last() =~= init.drop_last());
                assert(join_names(all) =~= join_names(init.drop_last()) + seq!['/'] + grown);
                assert(join_names(init) =~= join_names(init.drop_last()) + seq!['/'] + init.last());
                assert(join_names(all) =~= join_names(init).push(name.last()));
                assert(front.push(name.last()) =~= name);
            }
        }
    }
}

/// Whether a separator occurs in `s`.
pub fn contains_separator(s: &str) -> (r: bool)
    ensures
        r == has_separator(s@),
{
    let cs = chars_of(s);
    let mut i: usize = 0;
    while i < cs.len()
        invariant
            cs@ == s@,
            i <= cs.len(),
            forall|j: int| 0 <= j < i ==> !is_separator(#[trigger] cs@[j]),
        decreases cs.len() - i,
    {
        if cs[i] == '/' || cs[i] == '\\' {
            assert(is_separator(s@[i as int]));
            return true;
        }
        i += 1;
    }
    false
}

/// Checks one segment of a name: it must hold no separator and be neither `.`
/// nor `..`. The error holds the segment.
pub fn validate_path_component(component: &str) -> (r: Result<(), TransferError>)
    ensures
        r is Ok <==> safe_component(component@),
        r matches Err(e) ==> e@ == TransferErrorView::InvalidPathComponent(component@),
{
    proof {
        reveal_strlit(".");
        reveal_strlit("..");
        assert("."@ =~= seq!['.']);
        assert(".."@ =~= seq!['.', '.']);
    }
    if contains_separator(component) || same_text(component, ".") || same_text(component, "..") {
        Err(TransferError::InvalidPathComponent(String::from_str(component)))
    } else {
        Ok(())
    }
}

/// The segments of `name`, as strings.
pub fn split_name(name: &str) -> (parts: Vec<String>)
    ensures
        texts(parts@) == segments(name@),
{
    let cs = chars_of(name);
    let mut parts: Vec<String> = Vec::new();
    let mut start: usize = 0;
    let mut i: usize = 0;
    assert(name@.take(0) =~= Seq::<char>::empty());
    assert(name@.subrange(0, 0) =~= Seq::<char>::empty());
    assert(texts(parts@).push(name@.subrange(0, 0)) =~= segments(name@.take(0)));
    while i < cs.len()
        invariant
            cs@ == name@,
            start <= i <= cs.len(),
            segments(name@.take(i as int)) == texts(parts@).push(
                name@.subrange(start as int, i as int),
            ),
        decreases cs.len() - i,
    {
        proof {
            let upto = name@.take(i + 1);
            assert(upto.drop_last() =~= name@.take(i as int));
            assert(upto.last() == name@[i as int]);
        }
        if cs[i] == '/' {
            let piece = name.substring_char(start, i);
            let ghost before = texts(parts@);
            parts.push(String::from_str(piece));
            proof {
                assert(texts(parts@) =~= before.push(name@.subrange(start as int, i as int)));
                assert(name@.subrange(i + 1, i + 1) =~= Seq::<char>::empty());
            }
            start = i + 1;
        } else {
            proof {
                let grown = name@.subrange(start as int, i as int).push(name@[i as int]);
                assert(grown =~= name@.subrange(start as int, i + 1));
                let init = texts(parts@).push(name@.subrange(start as int, i as int));
                assert(init.update(init.len() - 1, grown) =~= texts(parts@).push(grown));
            }
        }
        i += 1;
    }
    let piece = name.substring_char(start, i);
    let ghost before = texts(parts@);
    parts.push(String::from_str(piece));
    proof {
        assert(texts(parts@) =~= before.push(name@.subrange(start as int, i as int)));
        assert(name@.take(i as int) =~= name@);
    }
    parts
}

/// The first unsafe segment among `segs`, if there is one.
pub open spec fn first_unsafe(segs: Seq<Seq<char>>) -> Option<int> {
    if exists|i: int| 0 <= i < segs.len() && !safe_component(#[trigger] segs[i]) {
        Some(
            choose|i: int|
                0 <= i < segs.len() && !safe_component(#[trigger] segs[i]) && forall|j: int|
                    0 <= j < i ==> safe_component(#[trigger] segs[j]),
        )
    } else {
        None
    }
}

/// Where some segment is unsafe, `first_unsafe` names the leftmost one.
proof fn lemma_first_unsafe(segs: Seq<Seq<char>>, k: int)
    requires
        0 <= k < segs.len(),
        !safe_component(segs[k]),
        forall|j: int| 0 <= j < k ==> safe_component(#[trigger] segs[j]),
    ensures
        first_unsafe(segs) == Some(k),
{
    let i = choose|i: int|
        0 <= i < segs.len() && !safe_component(#[trigger] segs[i]) && forall|j: int|
            0 <= j < i ==> safe_component(#[trigger] segs[j]);
    assert(i == k) by {
        if i < k {
            assert(safe_component(segs[i]));
        } else if k < i {
            assert(safe_component(segs[k]));
        }
    }
}

/// Checks a whole name: every segment must be safe. The error holds the
/// leftmost unsafe segment.
pub fn validate_path(name: &str) -> (r: Result<(), TransferError>)
    ensures
        r is Ok <==> valid_name(name@),
        r matches Err(e) ==> first_unsafe(segments(name@)) is Some && e@
            == TransferErrorView::InvalidPathComponent(
            segments(name@)[first_unsafe(segments(name@))->0],
        ),
{
    let parts = split_name(name);
    let mut i: usize = 0;
    while i < parts.len()
        invariant
            texts(parts@) == segments(name@),
            i <= parts.len(),
            forall|j: int| 0 <= j < i ==> safe_component(#[trigger] segments(name@)[j]),
        decreases parts.len() - i,
    {
        assert(texts(parts@)[i as int] == parts@[i as int]@);
        match validate_path_component(parts[i].as_str()) {
            Ok(()) => {},
            Err(e) => {
                proof {
                    lemma_first_unsafe(segments(name@), i as int);
                }
                return Err(e);
            },
        }
        i += 1;
    }
    Ok(())
}

/// The path reached from `path` by one more segment: a `/` is put between
/// them unless `path` is empty or ends in one.
pub open spec fn push_segment(path: Seq<char>, segment: Seq<char>) -> Seq<char> {
    if path.len() == 0 || path.last() == '/' {
        path + segment
    } else {
        path + seq!['/'] + segment
    }
}

/// The path reached from `root` by the segments in turn.
pub open spec fn export_path(root: Seq<char>, segs: Seq<Seq<char>>) -> Seq<char>
    decreases segs.len(),
{
    if segs.len() == 0 {
        root
    } else {
        push_segment(export_path(root, segs.drop_last()), segs.last())
    }
}

/// Every target lies below the root as a text: the path reached from a root
/// begins with the root.
pub proof fn lemma_export_path_begins_with_root(root: Seq<char>, segs: Seq<Seq<char>>)
    ensures
        export_path(root, segs).len() >= root.len(),
        export_path(root, segs).subrange(0, root.len() as int) == root,
    decreases segs.len(),
{
    if segs.len() == 0 {
        assert(root.subrange(0, root.len() as int) =~= root);
    } else {
        let front = export_path(root, segs.drop_last());
        lemma_export_path_begins_with_root(root, segs.drop_last());
        assert(push_segment(front, segs.last()).subrange(0, root.len() as int) =~= front.subrange(
            0,
            root.len() as int,
        ));
    }
}

/// `path` extended by one segment.
pub fn join_path(path: &str, segment: &str) -> (out: String)
    ensures
        out@ == push_segment(path@, segment@),
{
    let cs = chars_of(path);
    let mut out = String::from_str(path);
    if cs.len() > 0 && cs[cs.len() - 1] != '/' {
        proof {
            reveal_strlit("/");
            assert("/"@ =~= seq!['/']);
        }
        out.append("/");
    }
    out.append(segment);
    assert(out@ =~= push_segment(path@, segment@));
    out
}

/// Where the entry `name` of a collection is written below the directory
/// `root`. Fails, with the leftmost unsafe segment, unless the name is valid.
pub fn get_export_path(root: &str, name: &str) -> (r: Result<String, TransferError>)
    ensures
        r is Ok <==> valid_name(name@),
        r matches Ok(path) ==> path@ == export_path(root@, segments(name@)),
        r matches Err(e) ==> first_unsafe(segments(name@)) is Some && e@
            == TransferErrorView::InvalidPathComponent(
            segments(name@)[first_unsafe(segments(name@))->0],
        ),
{
    let parts = split_name(name);
    let mut path = String::from_str(root);
    let mut i: usize = 0;
    assert(segments(name@).take(0) =~= Seq::<Seq<char>>::empty());
    while i < parts.len()
        invariant
            texts(parts@) == segments(name@),
            i <= parts.len(),
            forall|j: int| 0 <= j < i ==> safe_component(#[trigger] segments(name@)[j]),
            path@ == export_path(root@, segments(name@).take(i as int)),
        decreases parts.len() - i,
    {
        assert(texts(parts@)[i as int] == parts@[i as int]@);
        match validate_path_component(parts[i].as_str()) {
            Ok(()) => {},
            Err(e) => {
                proof {
                    lemma_first_unsafe(segments(name@), i as int);
                }
                return Err(e);
            },
        }
        path = join_path(path.as_str(), parts[i].as_str());
        proof {
            let upto = segments(name@).take(i + 1);
            assert(upto.drop_last() =~= segments(name@).take(i as int));
            assert(upto.last() == segments(name@)[i as int]);
        }
        i += 1;
    }
    assert(segments(name@).take(i as int) =~= segments(name@));
    Ok(path)
}

/// One component of a path of the file system.
#[derive(Debug, Clone, PartialEq, Eq)]
pub enum PathPart {
    /// A prefix such as a drive letter; holds its text.
    Prefix(String),
    /// The root directory.
    RootDir,
    /// The current directory, `.`.
    CurDir,
    /// The parent directory, `..`.
    ParentDir,
    /// An ordinary component; holds its text.
    Normal(String),
    /// An ordinary component that is not valid Unicode; holds a rendering of
    /// it for messages.
    NotUnicode(String),
}

/// The mathematical value of a [`PathPart`].
pub enum PathPartView {
    Prefix(Seq<char>),
    RootDir,
    CurDir,
    ParentDir,
    Normal(Seq<char>),
    NotUnicode(Seq<char>),
}

impl View for PathPart {
    type V = PathPartView;

    open spec fn view(&self) -> PathPartView {
        match self {
            PathPart::Prefix(t) => PathPartView::Prefix(t@),
            PathPart::RootDir => PathPartView::RootDir,
            PathPart::CurDir => PathPartView::CurDir,
            PathPart::ParentDir => PathPartView::ParentDir,
            PathPart::Normal(t) => PathPartView::Normal(t@),
            PathPart::NotUnicode(t) => PathPartView::NotUnicode(t@),
        }
    }
}

impl PathPartView {
    /// Whether the component may stand in a name: an ordinary component that
    /// is a safe segment, or the root directory where absolute paths are
    /// admitted.
    pub open spec fn accepted(self, must_be_relative: bool) -> bool {
        match self {
            PathPartView::Normal(t) => safe_component(t),
            PathPartView::RootDir => !must_be_relative,
            _ => false,
        }
    }

    /// The component as it is written in a path.
    pub open spec fn text(self) -> Seq<char> {
        match self {
            PathPartView::Prefix(t) => t,
            PathPartView::RootDir => seq!['/'],
            PathPartView::CurDir => seq!['.'],
            PathPartView::ParentDir => seq!['.', '.'],
            PathPartView::Normal(t) => t,
            PathPartView::NotUnicode(t) => t,
        }
    }
}

/// The views of a run of components.
pub open spec fn part_views(parts: Seq<PathPart>) -> Seq<PathPartView> {
    parts.map_values(|p: PathPart| p@)
}

/// One `/` for each root directory among the components.
pub open spec fn root_marks(parts: Seq<PathPartView>) -> Seq<char>
    decreases parts.len(),
{
    if parts.len() == 0 {
        Seq::<char>::empty()
    } else if parts.last() is RootDir {
        root_marks(parts.drop_last()).push('/')
    } else {
        root_marks(parts.drop_last())
    }
}

/// The texts of the ordinary components, in order.
pub open spec fn normal_texts(parts: Seq<PathPartView>) -> Seq<Seq<char>>
    decreases parts.len(),
{
    if parts.len() == 0 {
        Seq::<Seq<char>>::empty()
    } else {
        match parts.last() {
            PathPartView::Normal(t) => normal_texts(parts.drop_last()).push(t),
            _ => normal_texts(parts.drop_last()),
        }
    }
}

/// The name that a run of accepted components spells: the root marks, then
/// the ordinary components joined with `/`.
pub open spec fn canonical_text(parts: Seq<PathPartView>) -> Seq<char> {
    root_marks(parts) + join_names(normal_texts(parts))
}

/// The leftmost component that is not accepted, if there is one.
pub open spec fn first_rejected(parts: Seq<PathPartView>, must_be_relative: bool) -> Option<int> {
    if exists|i: int| 0 <= i < parts.len() && !(#[trigger] parts[i]).accepted(must_be_relative) {
        Some(
            choose|i: int|
                0 <= i < parts.len() && !(#[trigger] parts[i]).accepted(must_be_relative)
                    && forall|j: int|
                    0 <= j < i ==> (#[trigger] parts[j]).accepted(must_be_relative),
        )
    } else {
        None
    }
}

/// Where some component is rejected, `first_rejected` names the leftmost one.
proof fn lemma_first_rejected(parts: Seq<PathPartView>, must_be_relative: bool, k: int)
    requires
        0 <= k < parts.len(),
        !parts[k].accepted(must_be_relative),
        forall|j: int| 0 <= j < k ==> (#[trigger] parts[j]).accepted(must_be_relative),
    ensures
        first_rejected(parts, must_be_relative) == Some(k),
{
    let i = choose|i: int|
        0 <= i < parts.len() && !(#[trigger] parts[i]).accepted(must_be_relative) && forall|j: int|
            0 <= j < i ==> (#[trigger] parts[j]).accepted(must_be_relative);
    assert(i == k) by {
        if i < k {
            assert(parts[i].accepted(must_be_relative));
        } else if k < i {
            assert(parts[k].accepted(must_be_relative));
        }
    }
}

/// Turns the components of a canonical path into a name.
///
/// Every component must be accepted: an ordinary component that is a safe
/// segment, or, unless `must_be_relative`, the root directory. The error
/// holds the text of the leftmost component that is not.
pub fn canonicalized_path_to_string(parts: &Vec<PathPart>, must_be_relative: bool) -> (r: Result<
    String,
    TransferError,
>)
    ensures
        r is Ok <==> first_rejected(part_views(parts@), must_be_relative) is None,
        r matches Ok(name) ==> name@ == canonical_text(part_views(parts@)),
        r matches Err(e) ==> first_rejected(part_views(parts@), must_be_relative) is Some && e@
            == TransferErrorView::InvalidPathComponent(
            part_views(parts@)[first_rejected(part_views(parts@), must_be_relative)->0].text(),
        ),
{
    let ghost views = part_views(parts@);
    let mut roots = String::new();
    let mut joined = String::new();
    let mut any = false;
    let mut i: usize = 0;
    proof {
        reveal_strlit("/");
        reveal_strlit(".");
        reveal_strlit("..");
        assert("/"@ =~= seq!['/']);
        assert("."@ =~= seq!['.']);
        assert(".."@ =~= seq!['.', '.']);
        assert(views.take(0) =~= Seq::<PathPartView>::empty());
    }
    while i < parts.len()
        invariant
            views == part_views(parts@),
            "/"@ == seq!['/'],
            "."@ == seq!['.'],
            ".."@ == seq!['.', '.'],
            i <= parts.len(),
            forall|j: int| 0 <= j < i ==> (#[trigger] views[j]).accepted(must_be_relative),
            roots@ == root_marks(views.take(i as int)),
            joined@ == join_names(normal_texts(views.take(i as int))),
            any == (normal_texts(views.take(i as int)).len() > 0),
        decreases parts.len() - i,
    {
        proof {
            let upto = views.take(i + 1);
            assert(upto.drop_last() =~= views.take(i as int));
            assert(upto.last() == views[i as int]);
            assert(views[i as int] == parts@[i as int]@);
        }
        let ghost before = normal_texts(views.take(i as int));
        match &parts[i] {
            PathPart::Normal(t) => {
                match validate_path_component(t.as_str()) {
                    Ok(()) => {},
                    Err(e) => {
                        proof {
                            lemma_first_rejected(views, must_be_relative, i as int);
                        }
                        return Err(e);
                    },
                }
                if any {
                    joined.append("/");
                }
                joined.append(t.as_str());
                any = true;
                proof {
                    let after = before.push(t@);
                    assert(after.drop_last() =~= before);
                    assert(joined@ =~= join_names(after));
                }
            },
            PathPart::RootDir => {
                if must_be_relative {
                    proof {
                        lemma_first_rejected(views, must_be_relative, i as int);
                    }
                    return Err(TransferError::InvalidPathComponent(String::from_str("/")));
                }
                roots.append("/");
                assert(roots@ =~= root_marks(views.take(i as int)).push('/'));
            },
            PathPart::CurDir => {
                proof {
                    lemma_first_rejected(views, must_be_relative, i as int);
                }
                return Err(TransferError::InvalidPathComponent(String::from_str(".")));
            },
            PathPart::ParentDir => {
                proof {
                    lemma_first_rejected(views, must_be_relative, i as int);
                }
                return Err(TransferError::InvalidPathComponent(String::from_str("..")));
            },
            PathPart::Prefix(t) => {
                proof {
                    lemma_first_rejected(views, must_be_relative, i as int);
                }
                return Err(TransferError::InvalidPathComponent(t.clone()));
            },
            PathPart::NotUnicode(t) => {
                proof {
                    lemma_first_rejected(views, must_be_relative, i as int);
                }
                return Err(TransferError::InvalidPathComponent(t.clone()));
            },
        }
        i += 1;
    }
    assert(views.take(i as int) =~= views);
    roots.append(joined.as_str());
    Ok(roots)
}

/// The ordinary components that spell the segments `segs`.
pub open spec fn normal_parts(segs: Seq<Seq<char>>) -> Seq<PathPartView> {
    segs.map_values(|t: Seq<char>| PathPartView::Normal(t))
}

/// A valid name survives the way out and back: written below a directory
/// segment by segment and read again as the ordinary components of a relative
/// path, it is accepted and spells the same name.
pub proof fn lemma_name_round_trip(name: Seq<char>)
    requires
        valid_name(name),
    ensures
        first_rejected(normal_parts(segments(name)), true) is None,
        canonical_text(normal_parts(segments(name))) == name,
{
    let segs = segments(name);
    let parts = normal_parts(segs);
    assert forall|i: int| 0 <= i < parts.len() implies (#[trigger] parts[i]).accepted(true) by {
        assert(safe_component(segs[i]));
    }
    lemma_normal_parts_texts(segs);
    lemma_join_segments(name);
    assert(canonical_text(parts) =~= name);
}

/// Ordinary components carry their segments and no root mark.
proof fn lemma_normal_parts_texts(segs: Seq<Seq<char>>)
    ensures
        normal_texts(normal_parts(segs)) == segs,
        root_marks(normal_parts(segs)) == Seq::<char>::empty(),
    decreases segs.len(),
{
    if segs.len() == 0 {
        assert(normal_texts(normal_parts(segs)) =~= segs);
    } else {
        lemma_normal_parts_texts(segs.drop_last());
        assert(normal_parts(segs).drop_last() =~= normal_parts(segs.drop_last()));
        assert(normal_parts(segs).last() == PathPartView::Normal(segs.last()));
        assert(segs.drop_last().push(segs.last()) =~= segs);
    }
}

/// A text without `/` that follows a name lengthens the last segment of the
/// name.
proof fn lemma_segments_append(name: Seq<char>, text: Seq<char>)
    requires
        forall|i: int| 0 <= i < text.len() ==> text[i] != '/',
    ensures
        segments(name + text) == segments(name).update(
            segments(name).len() - 1,
            segments(name).last() + text,
        ),
    decreases text.len(),
{
    lemma_segments_nonempty(name);
    let init = segments(name);
    if text.len() == 0 {
        assert(name + text =~= name);
        assert(init.last() + text =~= init.last());
        assert(init.update(init.len() - 1, init.last()) =~= init);
    } else {
        let front = text.drop_last();
        lemma_segments_append(name, front);
        assert((name + text).drop_last() =~= name + front);
        assert((name + text).last() == text.last());
        let grown = init.update(init.len() - 1, init.last() + front);
        assert(grown.last().push(text.last()) =~= init.last() + text);
        assert(grown.update(grown.len() - 1, init.last() + text) =~= init.update(
            init.len() - 1,
            init.last() + text,
        ));
    }
}

/// Texts without `/`, at least one, are the segments of what they are joined
/// to.
proof fn lemma_segments_of_join(parts: Seq<Seq<char>>)
    requires
        parts.len() >= 1,
        forall|i: int, j: int|
            0 <= i < parts.len() && 0 <= j < parts[i].len() ==> (#[trigger] parts[i][j]) != '/',
    ensures
        segments(join_names(parts)) == parts,
    decreases parts.len(),
{
    let none = Seq::<char>::empty();
    if parts.len() == 1 {
        lemma_segments_append(none, parts[0]);
        assert(none + parts[0] =~= parts[0]);
        assert(segments(none) =~= seq![none]);
        assert(seq![none].update(0, none + parts[0]) =~= parts);
    } else {
        let front = parts.drop_last();
        let last = parts.last();
        assert forall|i: int, j: int| 0 <= i < front.len() && 0 <= j < front[i].len() implies (
        #[trigger] front[i][j]) != '/' by {
            assert(front[i] == parts[i]);
        }
        lemma_segments_of_join(front);
        let head = join_names(front).push('/');
        assert(head.drop_last() =~= join_names(front));
        assert(segments(head) == front.push(none));
        lemma_segments_append(head, last);
        assert(head + last =~= join_names(front) + seq!['/'] + last);
        assert(front.push(none).update(front.len() as int, none + last) =~= parts);
    }
}

/// What import makes of a file's path is a valid name: where every component
/// of a relative path is accepted, the name that the components spell passes
/// the check that export makes.
pub proof fn lemma_imported_name_is_valid(parts: Seq<PathPartView>)
    requires
        first_rejected(parts, true) is None,
    ensures
        valid_name(canonical_text(parts)),
{
    let texts = normal_texts(parts);
    lemma_accepted_parts_are_normal(parts);
    assert(canonical_text(parts) =~= join_names(texts));
    if texts.len() == 0 {
        assert(segments(join_names(texts)) =~= seq![Seq::<char>::empty()]);
    } else {
        assert forall|i: int, j: int| 0 <= i < texts.len() && 0 <= j < texts[i].len() implies (
        #[trigger] texts[i][j]) != '/' by {
            assert(safe_component(texts[i]));
            assert(!is_separator(texts[i][j]));
        }
        lemma_segments_of_join(texts);
    }
}

/// Accepted components of a relative path are all ordinary: they carry no
/// root mark, and each of their texts is a safe segment.
proof fn lemma_accepted_parts_are_normal(parts: Seq<PathPartView>)
    requires
        first_rejected(parts, true) is None,
    ensures
        root_marks(parts) == Seq::<char>::empty(),
        normal_texts(parts).len() == parts.len(),
        forall|i: int| 0 <= i < parts.len() ==> safe_component(#[trigger] normal_texts(parts)[i]),
    decreases parts.len(),
{
    if parts.len() > 0 {
        let front = parts.drop_last();
        assert forall|i: int| 0 <= i < front.len() implies (#[trigger] front[i]).accepted(true) by {
            assert(front[i] == parts[i]);
            assert(parts[i].accepted(true));
        }
        lemma_accepted_parts_are_normal(front);
        assert(parts.last() == parts[parts.len() - 1]);
        assert(parts[parts.len() - 1].accepted(true));
    }
}

/// The name of the entry `name` as it is met again below the directory
/// `dir`: names are taken against the parent of what is shared, so that the
/// name of the directory itself stands in front.
pub open spec fn name_below(dir: Seq<char>, name: Seq<char>) -> Seq<char> {
    dir + seq!['/'] + name
}

/// A text in front of texts that are joined stands in front of what they are
/// joined to, with one `/` between.
proof fn lemma_join_behind(dir: Seq<char>, segs: Seq<Seq<char>>)
    requires
        segs.len() >= 1,
    ensures
        join_names(seq![dir] + segs) == dir + seq!['/'] + join_names(segs),
    decreases segs.len(),
{
    let all = seq![dir] + segs;
    if segs.len() == 1 {
        assert(all.drop_last() =~= seq![dir]);
        assert(all.last() == segs[0]);
        assert(join_names(seq![dir]) == dir);
        assert(join_names(all) =~= dir + seq!['/'] + segs[0]);
    } else {
        let front = segs.drop_last();
        lemma_join_behind(dir, front);
        assert(all.drop_last() =~= seq![dir] + front);
        assert(all.last() == segs.last());
        assert(join_names(all) =~= dir + seq!['/'] + join_names(front) + seq!['/'] + segs.last());
        assert(join_names(segs) =~= join_names(front) + seq!['/'] + segs.last());
        assert(join_names(all) =~= dir + seq!['/'] + join_names(segs));
    }
}

/// A valid name survives the way out and back below a directory: written
/// below the directory `dir` segment by segment and read again as the
/// ordinary components of its path from the parent of `dir`, it is accepted
/// and spells the same name behind the name of the directory.
pub proof fn lemma_name_below_directory(dir: Seq<char>, name: Seq<char>)
    requires
        safe_component(dir),
        valid_name(name),
    ensures
        first_rejected(normal_parts(seq![dir] + segments(name)), true) is None,
        canonical_text(normal_parts(seq![dir] + segments(name))) == name_below(dir, name),
{
    let segs = seq![dir] + segments(name);
    let parts = normal_parts(segs);
    assert forall|i: int| 0 <= i < parts.len() implies (#[trigger] parts[i]).accepted(true) by {
        if i > 0 {
            assert(segs[i] == segments(name)[i - 1]);
            assert(safe_component(segments(name)[i - 1]));
        }
    }
    lemma_normal_parts_texts(segs);
    lemma_segments_nonempty(name);
    lemma_join_behind(dir, segments(name));
    lemma_join_segments(name);
    assert(canonical_text(parts) =~= name_below(dir, name));
}

} // verus!
