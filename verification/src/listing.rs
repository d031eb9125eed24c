//! The videos of a directory, from what reading the directory found.
//!
//! Reading is the caller's part. What it found comes here as a [`DirScan`];
//! the list of videos goes back: the paths of the regular files whose names
//! are videos', sorted.

use crate::sorting::{ascending, is_sorted_form, lemma_sorted_form_unique, sort_strings, texts};
use crate::video::{is_video_path, video_path};
use vstd::prelude::*;
use vstd::seq_lib::{lemma_multiset_commutative, to_multiset_remove};

verus! {

/// One child of a directory, as reading the directory found it.
#[derive(Debug, PartialEq, Eq)]
pub enum DirItem {
    /// The entry could not be read; the text is the system's message.
    Failed(String),
    /// The entry's path is not valid text.
    Unnamed,
    /// An entry with its full path, and whether it is a regular file.
    Found { path: String, is_file: bool },
}

/// What a [`DirItem`] stands for.
pub enum DirItemView {
    Failed(Seq<char>),
    Unnamed,
    Found { path: Seq<char>, is_file: bool },
}

impl View for DirItem {
    type V = DirItemView;

    open spec fn view(&self) -> DirItemView {
        match self {
            DirItem::Failed(message) => DirItemView::Failed(message@),
            DirItem::Unnamed => DirItemView::Unnamed,
            DirItem::Found { path, is_file } => DirItemView::Found { path: path@, is_file: *is_file },
        }
    }
}

/// What came of reading a directory.
#[derive(Debug, PartialEq, Eq)]
pub enum DirScan {
    /// The path does not name an existing directory.
    NotADirectory,
    /// The directory could not be opened; the text is the system's message.
    Unreadable(String),
    /// The directory's children, in the order in which they were read, up to
    /// and including the first that could not be read.
    Items(Vec<DirItem>),
}

/// What a [`DirScan`] stands for.
pub enum DirScanView {
    NotADirectory,
    Unreadable(Seq<char>),
    Items(Seq<DirItemView>),
}

/// The items of a list, each by what it stands for.
pub open spec fn item_views(items: Seq<DirItem>) -> Seq<DirItemView> {
    items.map_values(|item: DirItem| item@)
}

impl View for DirScan {
    type V = DirScanView;

    open spec fn view(&self) -> DirScanView {
        match self {
            DirScan::NotADirectory => DirScanView::NotADirectory,
            DirScan::Unreadable(message) => DirScanView::Unreadable(message@),
            DirScan::Items(items) => DirScanView::Items(item_views(items@)),
        }
    }
}

/// Why a directory's videos could not be listed.
#[derive(Debug, PartialEq, Eq)]
pub enum ListError {
    /// The path does not name an existing directory.
    InvalidDirectory,
    /// Reading the directory failed; the text is the system's message.
    Io(String),
}

/// What a [`ListError`] stands for.
pub enum ListErrorView {
    InvalidDirectory,
    Io(Seq<char>),
}

impl ListErrorView {
    /// The message shown to the user.
    pub open spec fn message(self) -> Seq<char> {
        match self {
            ListErrorView::InvalidDirectory => "不是有效目录"@,
            ListErrorView::Io(message) => message,
        }
    }
}

impl View for ListError {
    type V = ListErrorView;

    open spec fn view(&self) -> ListErrorView {
        match self {
            ListError::InvalidDirectory => ListErrorView::InvalidDirectory,
            ListError::Io(message) => ListErrorView::Io(message@),
        }
    }
}

impl ListError {
    /// The message shown to the user.
    pub fn message(&self) -> (text: String)
        ensures
            text@ == self@.message(),
    {
        match self {
            ListError::InvalidDirectory => "不是有效目录".to_owned(),
            ListError::Io(message) => message.clone(),
        }
    }
}

/// The path under which an item is listed, if it is listed: the item is a
/// regular file, and its path is a video's.
pub open spec fn listed_path(item: DirItemView) -> Option<Seq<char>> {
    match item {
        DirItemView::Found { path, is_file } => if is_file && video_path(path) {
            Some(path)
        } else {
            None
        },
        _ => None,
    }
}

/// The paths of the listed items, in the items' order.
pub open spec fn video_paths(items: Seq<DirItemView>) -> Seq<Seq<char>> {
    items.filter_map(|item: DirItemView| listed_path(item))
}

/// The message of the first item that could not be read, if there is one.
pub open spec fn first_failure(items: Seq<DirItemView>) -> Option<Seq<char>>
    decreases items.len(),
{
    if items.len() == 0 {
        None
    } else {
        match items.first() {
            DirItemView::Failed(message) => Some(message),
            _ => first_failure(items.drop_first()),
        }
    }
}

/// What listing the videos of a scanned directory comes to. A path that is
/// no directory is an error, and so is a directory or a child that could not
/// be read, with the system's message for the first such failure. Otherwise
/// the listing is the sorted form of the listed paths.
pub open spec fn is_listing(
    scan: DirScanView,
    result: Result<Seq<Seq<char>>, ListErrorView>,
) -> bool {
    match scan {
        DirScanView::NotADirectory => result == Err::<Seq<Seq<char>>, ListErrorView>(
            ListErrorView::InvalidDirectory,
        ),
        DirScanView::Unreadable(message) => result == Err::<Seq<Seq<char>>, ListErrorView>(
            ListErrorView::Io(message),
        ),
        DirScanView::Items(items) => match first_failure(items) {
            Some(message) => result == Err::<Seq<Seq<char>>, ListErrorView>(
                ListErrorView::Io(message),
            ),
            None => result matches Ok(list) && is_sorted_form(video_paths(items), list),
        },
    }
}

/// A result of listing, by what it stands for.
pub open spec fn result_view(result: Result<Vec<String>, ListError>) -> Result<
    Seq<Seq<char>>,
    ListErrorView,
> {
    match result {
        Ok(list) => Ok(texts(list@)),
        Err(error) => Err(error@),
    }
}

/// Where no item before `at` failed and the item at `at` did, its message is
/// the first failure.
proof fn lemma_first_failure_at(items: Seq<DirItemView>, at: int)
    requires
        0 <= at < items.len(),
        forall|k: int| 0 <= k < at ==> !(#[trigger] items[k] is Failed),
        items[at] is Failed,
    ensures
        first_failure(items) == Some(items[at]->Failed_0),
    decreases at,
{
    if at > 0 {
        let rest = items.drop_first();
        assert forall|k: int| 0 <= k < at - 1 implies !(#[trigger] rest[k] is Failed) by {
            assert(rest[k] == items[k + 1]);
        }
        lemma_first_failure_at(rest, at - 1);
    }
}

/// Where no item failed, there is no first failure.
proof fn lemma_no_failure(items: Seq<DirItemView>)
    requires
        forall|k: int| 0 <= k < items.len() ==> !(#[trigger] items[k] is Failed),
    ensures
        first_failure(items) is None,
    decreases items.len(),
{
    if items.len() > 0 {
        let rest = items.drop_first();
        assert forall|k: int| 0 <= k < rest.len() implies !(#[trigger] rest[k] is Failed) by {
            assert(rest[k] == items[k + 1]);
        }
        lemma_no_failure(rest);
    }
}

/// Lists the videos of a directory from what reading it found.
pub fn list_video_files_in_dir(scan: &DirScan) -> (result: Result<Vec<String>, ListError>)
    ensures
        is_listing(scan@, result_view(result)),
        result matches Ok(list) ==> ascending(texts(list@)),
{
    match scan {
        DirScan::NotADirectory => Err(ListError::InvalidDirectory),
        DirScan::Unreadable(message) => Err(ListError::Io(message.clone())),
        DirScan::Items(items) => {
            let ghost all = item_views(items@);
            let ghost listed = |item: DirItemView| listed_path(item);
            let mut found: Vec<String> = Vec::new();
            let mut i: usize = 0;
            while i < items.len()
                invariant
                    i <= items.len(),
                    all == item_views(items@),
                    scan@ == DirScanView::Items(all),
                    listed == |item: DirItemView| listed_path(item),
                    forall|k: int| 0 <= k < i ==> !(#[trigger] all[k] is Failed),
                    texts(found@) == all.take(i as int).filter_map(listed),
                decreases items.len() - i,
            {
                proof {
                    all.lemma_filter_map_take_succ(listed, i as int);
                }
                match &items[i] {
                    DirItem::Failed(message) => {
                        proof {
                            lemma_first_failure_at(all, i as int);
                        }
                        return Err(ListError::Io(message.clone()));
                    },
                    DirItem::Unnamed => {},
                    DirItem::Found { path, is_file } => {
                        if *is_file && is_video_path(path.as_str()) {
                            found.push(path.clone());
                        }
                    },
                }
                i = i + 1;
            }
            proof {
                assert(all.take(i as int) =~= all);
                lemma_no_failure(all);
            }
            Ok(sort_strings(&found))
        },
    }
}

/// A scan has one listing only: what [`is_listing`] says of a result, it
/// says of no other.
pub proof fn lemma_listing_determined(
    scan: DirScanView,
    one: Result<Seq<Seq<char>>, ListErrorView>,
    other: Result<Seq<Seq<char>>, ListErrorView>,
)
    requires
        is_listing(scan, one),
        is_listing(scan, other),
    ensures
        one == other,
{
    if let DirScanView::Items(items) = scan {
        if first_failure(items) is None {
            lemma_sorted_form_unique(video_paths(items), one->Ok_0, other->Ok_0);
        }
    }
}

/// A path that is no directory gives an error, never an empty list.
pub proof fn lemma_missing_directory_is_error(result: Result<Seq<Seq<char>>, ListErrorView>)
    requires
        is_listing(DirScanView::NotADirectory, result),
    ensures
        result == Err::<Seq<Seq<char>>, ListErrorView>(ListErrorView::InvalidDirectory),
{
}

/// A directory without children gives the empty list, never an error.
pub proof fn lemma_empty_directory_lists_nothing(result: Result<Seq<Seq<char>>, ListErrorView>)
    requires
        is_listing(DirScanView::Items(Seq::empty()), result),
    ensures
        result == Ok::<Seq<Seq<char>>, ListErrorView>(Seq::empty()),
{
    let list = result->Ok_0;
    list.to_multiset_ensures();
    video_paths(Seq::empty()).to_multiset_ensures();
    assert(list =~= Seq::<Seq<char>>::empty());
}

/// The listed paths of a list of items are those of its regular files whose
/// paths are videos'.
proof fn lemma_video_paths_contains(items: Seq<DirItemView>, path: Seq<char>)
    ensures
        video_paths(items).contains(path) <==> video_path(path) && items.contains(
            DirItemView::Found { path, is_file: true },
        ),
    decreases items.len(),
{
    let file = DirItemView::Found { path, is_file: true };
    if items.len() > 0 {
        let rest = items.drop_last();
        let before = video_paths(rest);
        lemma_video_paths_contains(rest, path);
        if video_path(path) && items.contains(file) {
            let k = choose|k: int| 0 <= k < items.len() && items[k] == file;
            if k < rest.len() {
                assert(rest[k] == file);
                let at = choose|at: int| 0 <= at < before.len() && before[at] == path;
                assert(video_paths(items)[at] == path);
            } else {
                assert(video_paths(items)[before.len() as int] == path);
            }
        }
    }
}

/// A listing holds exactly the paths of the scanned items that are regular
/// files and whose paths are videos'. So a subdirectory is never listed,
/// whatever its name, nor a file of another kind.
pub proof fn lemma_listed_exactly(items: Seq<DirItemView>, list: Seq<Seq<char>>, path: Seq<char>)
    requires
        is_listing(DirScanView::Items(items), Ok(list)),
    ensures
        list.contains(path) <==> video_path(path) && items.contains(
            DirItemView::Found { path, is_file: true },
        ),
{
    lemma_video_paths_contains(items, path);
    let paths = video_paths(items);
    list.to_multiset_ensures();
    paths.to_multiset_ensures();
    assert(paths.contains(path) <==> paths.to_multiset().count(path) > 0);
}

/// Where there is no first failure, no item failed.
proof fn lemma_none_failed(items: Seq<DirItemView>, at: int)
    requires
        first_failure(items) is None,
        0 <= at < items.len(),
    ensures
        !(items[at] is Failed),
    decreases at,
{
    if at > 0 {
        lemma_none_failed(items.drop_first(), at - 1);
    }
}

/// The listed paths of two lists laid end to end are the listed paths of
/// the first, then those of the second.
proof fn lemma_video_paths_concat(a: Seq<DirItemView>, b: Seq<DirItemView>)
    ensures
        video_paths(a + b) == video_paths(a) + video_paths(b),
    decreases b.len(),
{
    if b.len() > 0 {
        lemma_video_paths_concat(a, b.drop_last());
        assert((a + b).drop_last() =~= a + b.drop_last());
    }
}

/// Taking one item out of a list takes its listed path, if it has one, out
/// of the listed paths.
proof fn lemma_video_paths_without(items: Seq<DirItemView>, at: int)
    requires
        0 <= at < items.len(),
    ensures
        video_paths(items).to_multiset() == video_paths(items.remove(at)).to_multiset().add(
            video_paths(seq![items[at]]).to_multiset(),
        ),
{
    let head = items.take(at);
    let one = seq![items[at]];
    let tail = items.skip(at + 1);
    assert(items =~= head + one + tail);
    lemma_video_paths_concat(head + one, tail);
    lemma_video_paths_concat(head, one);
    lemma_video_paths_concat(head, tail);
    let h = video_paths(head);
    let o = video_paths(one);
    let t = video_paths(tail);
    lemma_multiset_commutative(h + o, t);
    lemma_multiset_commutative(h, o);
    lemma_multiset_commutative(h, t);
}

/// Two lists that hold the same items, in whatever order, have the same
/// listed paths, in whatever order.
proof fn lemma_video_paths_permuted(a: Seq<DirItemView>, b: Seq<DirItemView>)
    requires
        a.to_multiset() == b.to_multiset(),
    ensures
        video_paths(a).to_multiset() == video_paths(b).to_multiset(),
    decreases a.len(),
{
    a.to_multiset_ensures();
    b.to_multiset_ensures();
    if a.len() > 0 {
        let last = a.last();
        let at_a = a.len() - 1;
        assert(b.to_multiset().count(last) > 0);
        let at_b = choose|k: int| 0 <= k < b.len() && b[k] == last;
        to_multiset_remove(a, at_a);
        to_multiset_remove(b, at_b);
        lemma_video_paths_permuted(a.remove(at_a), b.remove(at_b));
        lemma_video_paths_without(a, at_a);
        lemma_video_paths_without(b, at_b);
    }
}

/// The listing does not depend on the order in which the directory's
/// children were read: two scans that found the same children, none of
/// which failed, have the same listing.
pub proof fn lemma_listing_ignores_order(
    a: Seq<DirItemView>,
    b: Seq<DirItemView>,
    of_a: Result<Seq<Seq<char>>, ListErrorView>,
    of_b: Result<Seq<Seq<char>>, ListErrorView>,
)
    requires
        a.to_multiset() == b.to_multiset(),
        first_failure(a) is None,
        is_listing(DirScanView::Items(a), of_a),
        is_listing(DirScanView::Items(b), of_b),
    ensures
        of_a is Ok,
        of_a == of_b,
{
    a.to_multiset_ensures();
    b.to_multiset_ensures();
    assert forall|k: int| 0 <= k < b.len() implies !(#[trigger] b[k] is Failed) by {
        assert(a.to_multiset().count(b[k]) > 0);
        let at = choose|at: int| 0 <= at < a.len() && a[at] == b[k];
        lemma_none_failed(a, at);
    }
    lemma_no_failure(b);
    lemma_video_paths_permuted(a, b);
    lemma_sorted_form_unique(video_paths(a), of_a->Ok_0, of_b->Ok_0);
}

} // verus!
