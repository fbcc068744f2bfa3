//! A read-only snapshot of an application's source tree: the files below the
//! source root, each under its relative path, in lexicographic order.

use crate::error::Error;
use crate::glob::{glob_matches, glob_valid, Glob};
use crate::json::{json_document, Json};
use crate::pattern::{regex_captures, regex_compiles, Pattern};
use crate::text::{
    chars_of, lemma_lt_asymmetric, lemma_lt_transitive, order_chars, seq_lt, string_of_range,
    Order,
};
use vstd::prelude::*;

verus! {

/// What a file of the snapshot stands for: its relative path and, where the
/// file is text, its contents.
pub struct FileView {
    pub path: Seq<char>,
    pub contents: Option<Seq<char>>,
}

/// A file as it is handed to the snapshot. `contents` is `None` for a file
/// that is not valid UTF-8.
#[derive(Debug, Clone)]
pub struct SourceFile {
    pub path: String,
    pub contents: Option<String>,
}

impl View for SourceFile {
    type V = FileView;

    open spec fn view(&self) -> FileView {
        FileView { path: self.path@, contents: self.contents.deep_view() }
    }
}

impl DeepView for SourceFile {
    type V = FileView;

    open spec fn deep_view(&self) -> FileView {
        self@
    }
}

/// Some component of `path` that starts at `at` is `..`.
pub open spec fn parent_step_at(path: Seq<char>, at: int) -> bool {
    &&& 0 <= at
    &&& at + 1 < path.len()
    &&& path[at] == '.'
    &&& path[at + 1] == '.'
    &&& (at == 0 || path[at - 1] == '/')
    &&& (at + 2 == path.len() || path[at + 2] == '/')
}

/// `path` is a relative path that stays below the directory it starts from:
/// it is not empty, does not begin with `/` and has no component `..`.
pub open spec fn inside_root(path: Seq<char>) -> bool {
    &&& path.len() > 0
    &&& path[0] != '/'
    &&& forall|at: int| !parent_step_at(path, at)
}

/// The paths of `files` rise strictly in lexicographic order.
pub open spec fn sorted_by_path(files: Seq<FileView>) -> bool {
    forall|i: int, j: int|
        0 <= i < j < files.len() ==> seq_lt((#[trigger] files[i]).path, (#[trigger] files[j]).path)
}

/// The paths rise strictly in lexicographic order.
pub open spec fn rising(paths: Seq<Seq<char>>) -> bool {
    forall|i: int, j: int| 0 <= i < j < paths.len() ==> seq_lt(#[trigger] paths[i], #[trigger] paths[j])
}

/// Taking some paths out of a rising list leaves a rising list.
pub proof fn lemma_filter_keeps_order(paths: Seq<Seq<char>>, wanted: spec_fn(Seq<char>) -> bool)
    requires
        rising(paths),
    ensures
        rising(paths.filter(wanted)),
    decreases paths.len(),
{
    reveal(Seq::filter);
    if paths.len() > 0 {
        let front = paths.drop_last();
        let kept = front.filter(wanted);
        assert(rising(front)) by {
            assert forall|i: int, j: int| 0 <= i < j < front.len() implies seq_lt(
                #[trigger] front[i],
                #[trigger] front[j],
            ) by {
                assert(front[i] == paths[i]);
                assert(front[j] == paths[j]);
            }
        }
        lemma_filter_keeps_order(front, wanted);
        if wanted(paths.last()) {
            let all = kept.push(paths.last());
            assert forall|i: int, j: int| 0 <= i < j < all.len() implies seq_lt(
                #[trigger] all[i],
                #[trigger] all[j],
            ) by {
                if j < kept.len() {
                    assert(seq_lt(kept[i], kept[j]));
                } else {
                    assert(kept.contains(kept[i]));
                    front.lemma_filter_contains_rev(wanted, kept[i]);
                    let k = choose|k: int| 0 <= k < front.len() && front[k] == kept[i];
                    assert(paths[k] == kept[i]);
                    assert(seq_lt(paths[k], paths[paths.len() - 1]));
                }
            }
        }
    }
}

/// Every path of `files` stays inside the root and no two files share one.
pub open spec fn acceptable(files: Seq<FileView>) -> bool {
    &&& forall|i: int| 0 <= i < files.len() ==> inside_root((#[trigger] files[i]).path)
    &&& forall|i: int, j: int|
        0 <= i < j < files.len() ==> (#[trigger] files[i]).path != (#[trigger] files[j]).path
}

/// Both lists hold the same files, each as often as the other.
pub open spec fn same_files(a: Seq<FileView>, b: Seq<FileView>) -> bool {
    &&& a.len() == b.len()
    &&& forall|i: int| 0 <= i < a.len() ==> b.contains(#[trigger] a[i])
    &&& forall|i: int| 0 <= i < b.len() ==> a.contains(#[trigger] b[i])
}

/// Two lists whose paths rise and that hold the same files are the same list.
pub proof fn lemma_sorted_files_are_unique(a: Seq<FileView>, b: Seq<FileView>)
    requires
        sorted_by_path(a),
        sorted_by_path(b),
        same_files(a, b),
    ensures
        a == b,
    decreases a.len(),
{
    if a.len() == 0 {
        assert(a =~= b);
    } else {
        assert(b.contains(a[0]));
        let k = choose|k: int| 0 <= k < b.len() && b[k] == a[0];
        assert(a.contains(b[0]));
        let m = choose|m: int| 0 <= m < a.len() && a[m] == b[0];
        if k > 0 {
            assert(seq_lt(b[0].path, b[k].path));
            if m > 0 {
                assert(seq_lt(a[0].path, a[m].path));
            }
            lemma_lt_asymmetric(b[0].path, b[k].path);
        }
        assert(a[0] == b[0]);
        let a1 = a.skip(1);
        let b1 = b.skip(1);
        assert forall|i: int, j: int| 0 <= i < j < a1.len() implies seq_lt(
            (#[trigger] a1[i]).path,
            (#[trigger] a1[j]).path,
        ) by {
            assert(seq_lt(a[i + 1].path, a[j + 1].path));
        }
        assert forall|i: int, j: int| 0 <= i < j < b1.len() implies seq_lt(
            (#[trigger] b1[i]).path,
            (#[trigger] b1[j]).path,
        ) by {
            assert(seq_lt(b[i + 1].path, b[j + 1].path));
        }
        assert forall|i: int| 0 <= i < a1.len() implies b1.contains(#[trigger] a1[i]) by {
            assert(b.contains(a[i + 1]));
            let j = choose|j: int| 0 <= j < b.len() && b[j] == a[i + 1];
            assert(seq_lt(a[0].path, a[i + 1].path));
            lemma_lt_asymmetric(a[0].path, a[i + 1].path);
            assert(b1[j - 1] == a1[i]);
        }
        assert forall|i: int| 0 <= i < b1.len() implies a1.contains(#[trigger] b1[i]) by {
            assert(a.contains(b[i + 1]));
            let j = choose|j: int| 0 <= j < a.len() && a[j] == b[i + 1];
            assert(seq_lt(b[0].path, b[i + 1].path));
            lemma_lt_asymmetric(b[0].path, b[i + 1].path);
            assert(a1[j - 1] == b1[i]);
        }
        lemma_sorted_files_are_unique(a1, b1);
        assert forall|i: int| 0 <= i < a.len() implies a[i] == b[i] by {
            if i > 0 {
                assert(a1[i - 1] == a[i]);
                assert(b1[i - 1] == b[i]);
            }
        }
        assert(a =~= b);
    }
}

/// A snapshot does not depend on the order in which its files came: two
/// rising lists made of the same given files, handed over in whatever order,
/// are the same list.
pub proof fn lemma_snapshot_ignores_order(
    first: Seq<FileView>,
    second: Seq<FileView>,
    given_first: Seq<FileView>,
    given_second: Seq<FileView>,
)
    requires
        sorted_by_path(first),
        sorted_by_path(second),
        same_files(first, given_first),
        same_files(second, given_second),
        same_files(given_first, given_second),
    ensures
        first == second,
{
    assert forall|i: int| 0 <= i < first.len() implies second.contains(#[trigger] first[i]) by {
        assert(given_first.contains(first[i]));
        let j = choose|j: int| 0 <= j < given_first.len() && given_first[j] == first[i];
        assert(given_second.contains(given_first[j]));
        let k = choose|k: int| 0 <= k < given_second.len() && given_second[k] == first[i];
        assert(second.contains(given_second[k]));
    }
    assert forall|i: int| 0 <= i < second.len() implies first.contains(#[trigger] second[i]) by {
        assert(given_second.contains(second[i]));
        let j = choose|j: int| 0 <= j < given_second.len() && given_second[j] == second[i];
        assert(given_first.contains(given_second[j]));
        let k = choose|k: int| 0 <= k < given_first.len() && given_first[k] == second[i];
        assert(first.contains(given_first[k]));
    }
    lemma_sorted_files_are_unique(first, second);
}

/// What a snapshot stands for.
pub struct AppView {
    pub root: Seq<char>,
    pub files: Seq<FileView>,
}

impl AppView {
    /// The relative paths of the files, in order.
    pub open spec fn paths(self) -> Seq<Seq<char>> {
        self.files.map_values(|f: FileView| f.path)
    }

    /// Whether a file lies under `path`.
    pub open spec fn includes(self, path: Seq<char>) -> bool {
        exists|i: int| 0 <= i < self.files.len() && (#[trigger] self.files[i]).path == path
    }

    /// The place of the file under `path`.
    pub open spec fn position(self, path: Seq<char>) -> int {
        choose|i: int| 0 <= i < self.files.len() && (#[trigger] self.files[i]).path == path
    }

    /// The text of the file under `path`; `None` where there is no such file
    /// or it is not text.
    pub open spec fn text(self, path: Seq<char>) -> Option<Seq<char>> {
        if self.includes(path) {
            self.files[self.position(path)].contents
        } else {
            None
        }
    }

    /// The files whose path matches the glob `pattern`, in order.
    pub open spec fn matching(self, pattern: Seq<char>) -> Seq<Seq<char>> {
        self.paths().filter(|path: Seq<char>| glob_matches(pattern, path))
    }

    /// Whether the regular expression `regex` matches in some text file whose
    /// path matches the glob `pattern`.
    pub open spec fn any_match(self, regex: Seq<char>, pattern: Seq<char>) -> bool {
        exists|i: int|
            0 <= i < self.files.len() && file_matches(#[trigger] self.files[i], regex, pattern)
    }

    /// The prefix that an absolute path below the root begins with: the root
    /// and a `/`, unless the root ends in one.
    pub open spec fn root_prefix(self) -> Seq<char> {
        if self.root.len() > 0 && self.root.last() == '/' {
            self.root
        } else {
            self.root.push('/')
        }
    }

    /// Whether `path` is the root prefix followed by a path inside the root.
    pub open spec fn is_below_root(self, path: Seq<char>) -> bool {
        &&& self.root_prefix().len() <= path.len()
        &&& path.take(self.root_prefix().len() as int) == self.root_prefix()
        &&& inside_root(path.skip(self.root_prefix().len() as int))
    }
}

/// Whether `file` is a text file whose path matches the glob `pattern` and in
/// whose text the regular expression `regex` matches.
pub open spec fn file_matches(file: FileView, regex: Seq<char>, pattern: Seq<char>) -> bool {
    &&& glob_matches(pattern, file.path)
    &&& file.contents is Some
    &&& regex_captures(regex, file.contents->Some_0) is Some
}

/// One file of the snapshot; `chars` holds the characters of `path`.
#[derive(Debug)]
struct Entry {
    path: String,
    chars: Vec<char>,
    contents: Option<String>,
}

impl View for Entry {
    type V = FileView;

    closed spec fn view(&self) -> FileView {
        FileView { path: self.path@, contents: self.contents.deep_view() }
    }
}

/// The files that a list of entries stands for.
spec fn files_of(entries: Seq<Entry>) -> Seq<FileView> {
    entries.map_values(|e: Entry| e@)
}

/// What the snapshot keeps true of its entries.
spec fn well_kept(entries: Seq<Entry>) -> bool {
    &&& forall|i: int| 0 <= i < entries.len() ==> (#[trigger] entries[i]).chars@ == entries[i].path@
    &&& forall|i: int| 0 <= i < entries.len() ==> inside_root((#[trigger] entries[i]).path@)
    &&& sorted_by_path(files_of(entries))
}

/// A snapshot of a source tree.
#[derive(Debug)]
pub struct App {
    root: String,
    entries: Vec<Entry>,
}

impl View for App {
    type V = AppView;

    closed spec fn view(&self) -> AppView {
        AppView { root: self.root@, files: files_of(self.entries@) }
    }
}

/// Whether `path` stays inside the root.
pub fn is_inside_root(path: &Vec<char>) -> (r: bool)
    ensures
        r == inside_root(path@),
{
    if path.len() == 0 || path[0] == '/' {
        return false;
    }
    let mut at: usize = 0;
    while at < path.len() - 1
        invariant
            at < path.len(),
            forall|k: int| 0 <= k < at ==> !parent_step_at(path@, k),
        decreases path.len() - at,
    {
        if path[at] == '.' && path[at + 1] == '.' && (at == 0 || path[at - 1] == '/') && (at + 2
            == path.len() || path[at + 2] == '/') {
            proof {
                assert(parent_step_at(path@, at as int));
            }
            return false;
        }
        at += 1;
    }
    true
}

/// What holds of the entries while a snapshot is built: as `well_kept`, but
/// with the paths falling instead of rising.
spec fn kept_falling(entries: Seq<Entry>) -> bool {
    &&& forall|i: int| 0 <= i < entries.len() ==> (#[trigger] entries[i]).chars@ == entries[i].path@
    &&& forall|i: int| 0 <= i < entries.len() ==> inside_root((#[trigger] entries[i]).path@)
    &&& forall|i: int, j: int|
        0 <= i < j < entries.len() ==> seq_lt(
            (#[trigger] entries[j]).path@,
            (#[trigger] entries[i]).path@,
        )
}

/// Where a file with the path `chars` belongs among `entries`, whose paths
/// fall, or a path error where a file with that path is there already.
fn insertion_point(entries: &Vec<Entry>, chars: &Vec<char>) -> (r: Result<usize, Error>)
    requires
        kept_falling(entries@),
    ensures
        match r {
            Ok(at) => {
                &&& at <= entries.len()
                &&& forall|k: int| 0 <= k < at ==> seq_lt(chars@, (#[trigger] entries[k]).path@)
                &&& forall|k: int|
                    at <= k < entries.len() ==> seq_lt((#[trigger] entries[k]).path@, chars@)
            },
            Err(e) => e == Error::Path && exists|k: int|
                0 <= k < entries.len() && (#[trigger] entries[k]).path@ == chars@,
        },
{
    let mut at: usize = entries.len();
    while at > 0
        invariant
            at <= entries.len(),
            kept_falling(entries@),
            forall|k: int| at <= k < entries.len() ==> seq_lt((#[trigger] entries[k]).path@, chars@),
        decreases at,
    {
        match order_chars(&entries[at - 1].chars, chars) {
            Order::Less => {
                at -= 1;
            },
            Order::Equal => {
                return Err(Error::Path);
            },
            Order::Greater => {
                proof {
                    assert forall|k: int| 0 <= k < at implies seq_lt(
                        chars@,
                        (#[trigger] entries[k]).path@,
                    ) by {
                        if k < at - 1 {
                            assert(seq_lt(entries[at - 1].path@, entries[k].path@));
                            lemma_lt_transitive(chars@, entries[at - 1].path@, entries[k].path@);
                        }
                    }
                }
                return Ok(at);
            },
        }
    }
    Ok(at)
}

impl App {
    #[verifier::type_invariant]
    spec fn entries_are_kept(self) -> bool {
        well_kept(self.entries@)
    }

    /// A snapshot of the tree below `root` that holds `files`, whatever order
    /// they come in. A path that leaves the root, and a path that occurs
    /// twice, is a path error.
    pub fn new(root: &str, files: Vec<SourceFile>) -> (r: Result<App, Error>)
        ensures
            match r {
                Ok(app) => {
                    &&& acceptable(files.deep_view())
                    &&& app@.root == root@
                    &&& sorted_by_path(app@.files)
                    &&& same_files(app@.files, files.deep_view())
                },
                Err(e) => e == Error::Path && !acceptable(files.deep_view()),
            },
    {
        let ghost given = files.deep_view();
        let mut pending = files;
        let mut entries: Vec<Entry> = Vec::new();
        let mut done: usize = 0;
        let total: usize = pending.len();
        proof {
            assert(given.take(total as int) =~= given);
            assert(given.skip(total as int) =~= seq![]);
        }
        // The files are taken from the end of the list; `done` counts them.
        while pending.len() > 0
            invariant
                given == files.deep_view(),
                pending.len() + done == total,
                total == given.len(),
                pending.deep_view() == given.take(pending.len() as int),
                kept_falling(entries@),
                entries.len() == done,
                acceptable(given.skip(pending.len() as int)),
                forall|i: int|
                    pending.len() <= i < total ==> files_of(entries@).contains(#[trigger] given[i]),
                forall|k: int|
                    0 <= k < entries.len() ==> given.skip(pending.len() as int).contains(
                        #[trigger] files_of(entries@)[k],
                    ),
            decreases pending.len(),
        {
            let ghost rest = pending.deep_view();
            let ghost before = entries@;
            let ghost n = pending.len() as int;
            let file = pending.pop().unwrap();
            proof {
                assert(file@ == given[n - 1]) by {
                    assert(rest[n - 1] == given.take(n)[n - 1]);
                }
                assert(pending.deep_view() =~= given.take(n - 1));
                assert(given.skip(n - 1) =~= seq![given[n - 1]] + given.skip(n));
            }
            let chars = chars_of(file.path.as_str());
            if !is_inside_root(&chars) {
                proof {
                    assert(!inside_root(given[n - 1].path));
                }
                return Err(Error::Path);
            }
            match insertion_point(&entries, &chars) {
                Err(e) => {
                    proof {
                        let k = choose|k: int|
                            0 <= k < entries.len() && (#[trigger] entries[k]).path@ == chars@;
                        let twin = files_of(entries@)[k];
                        assert(given.skip(n).contains(twin));
                        let j = choose|j: int| 0 <= j < given.skip(n).len() && given.skip(n)[j] == twin;
                        assert(given[n + j] == twin);
                        assert(given[n - 1].path == given[n + j].path);
                    }
                    return Err(e);
                },
                Ok(at) => {
                    let entry = Entry { path: file.path, chars, contents: file.contents };
                    let ghost added = entry@;
                    entries.insert(at, entry);
                    proof {
                        let old_files = files_of(before);
                        let new_files = files_of(entries@);
                        before.insert_ensures(at as int, entry);
                        assert(new_files =~= old_files.insert(at as int, added));
                        old_files.insert_ensures(at as int, added);
                        assert(added == given[n - 1]);
                        assert forall|i: int, j: int| 0 <= i < j < entries.len() implies seq_lt(
                            (#[trigger] entries[j]).path@,
                            (#[trigger] entries[i]).path@,
                        ) by {
                            let i0 = if i < at {
                                i
                            } else {
                                i - 1
                            };
                            let j0 = if j < at {
                                j
                            } else {
                                j - 1
                            };
                            if i != at && j != at {
                                assert(entries[i] == before[i0]);
                                assert(entries[j] == before[j0]);
                                assert(seq_lt(before[j0].path@, before[i0].path@));
                            } else if j == at {
                                assert(entries[i] == before[i0]);
                            } else {
                                assert(entries[j] == before[j0]);
                            }
                        }
                        assert forall|i: int| 0 <= i < entries.len() implies (
                        #[trigger] entries[i]).chars@ == entries[i].path@ && inside_root(
                            entries[i].path@,
                        ) by {
                            if i < at {
                                assert(entries[i] == before[i]);
                            } else if i > at {
                                assert(entries[i] == before[i - 1]);
                            }
                        }
                        assert forall|i: int| n - 1 <= i < total implies new_files.contains(
                            #[trigger] given[i],
                        ) by {
                            if i == n - 1 {
                                assert(new_files[at as int] == given[i]);
                            } else {
                                assert(old_files.contains(given[i]));
                                let k = choose|k: int|
                                    0 <= k < old_files.len() && old_files[k] == given[i];
                                if k < at {
                                    assert(new_files[k] == given[i]);
                                } else {
                                    assert(new_files[k + 1] == given[i]);
                                }
                            }
                        }
                        assert forall|k: int| 0 <= k < entries.len() implies given.skip(
                            n - 1,
                        ).contains(#[trigger] new_files[k]) by {
                            if k == at {
                                assert(given.skip(n - 1)[0] == new_files[k]);
                            } else {
                                let k0 = if k < at {
                                    k
                                } else {
                                    k - 1
                                };
                                assert(new_files[k] == old_files[k0]);
                                assert(given.skip(n).contains(old_files[k0]));
                                let j = choose|j: int|
                                    0 <= j < given.skip(n).len() && given.skip(n)[j]
                                        == old_files[k0];
                                assert(given.skip(n - 1)[j + 1] == old_files[k0]);
                            }
                        }
                        assert(acceptable(given.skip(n - 1))) by {
                            let tail = given.skip(n - 1);
                            assert forall|i: int| 0 <= i < tail.len() implies inside_root(
                                (#[trigger] tail[i]).path,
                            ) by {
                                if i > 0 {
                                    assert(tail[i] == given.skip(n)[i - 1]);
                                }
                            }
                            assert forall|i: int, j: int| 0 <= i < j < tail.len() implies (
                            #[trigger] tail[i]).path != (#[trigger] tail[j]).path by {
                                assert(tail[j] == given.skip(n)[j - 1]);
                                if i > 0 {
                                    assert(tail[i] == given.skip(n)[i - 1]);
                                } else {
                                    assert(old_files.contains(given.skip(n)[j - 1])) by {
                                        assert(given.skip(n)[j - 1] == given[n + j - 1]);
                                    }
                                    let k = choose|k: int|
                                        0 <= k < old_files.len() && old_files[k] == tail[j];
                                    assert(old_files[k].path == before[k].path@);
                                    if k < at {
                                        lemma_lt_asymmetric(added.path, before[k].path@);
                                    } else {
                                        lemma_lt_asymmetric(before[k].path@, added.path);
                                    }
                                }
                            }
                        }
                    }
                },
            }
            done += 1;
        }
        proof {
            assert(given.skip(0) =~= given);
        }
        let ghost falling = entries@;
        let mut rising: Vec<Entry> = Vec::new();
        while entries.len() > 0
            invariant
                entries@ == falling.take(entries.len() as int),
                rising.len() + entries.len() == falling.len(),
                forall|k: int|
                    0 <= k < rising.len() ==> (#[trigger] rising[k]) == falling[falling.len() - 1
                        - k],
            decreases entries.len(),
        {
            let ghost n = entries.len() as int;
            let entry = entries.pop().unwrap();
            proof {
                assert(entry == falling.take(n)[n - 1]);
                assert(entries@ =~= falling.take(n - 1));
            }
            rising.push(entry);
        }
        proof {
            let old_files = files_of(falling);
            let new_files = files_of(rising@);
            let last = falling.len() - 1;
            assert forall|i: int, j: int| 0 <= i < j < new_files.len() implies seq_lt(
                (#[trigger] new_files[i]).path,
                (#[trigger] new_files[j]).path,
            ) by {
                assert(rising[i] == falling[last - i]);
                assert(rising[j] == falling[last - j]);
                assert(seq_lt(falling[last - i].path@, falling[last - j].path@));
            }
            assert forall|i: int| 0 <= i < rising.len() implies (#[trigger] rising[i]).chars@
                == rising[i].path@ && inside_root(rising[i].path@) by {
                assert(rising[i] == falling[last - i]);
            }
            assert forall|i: int| 0 <= i < new_files.len() implies given.contains(
                #[trigger] new_files[i],
            ) by {
                assert(new_files[i] == old_files[last - i]);
                assert(given.contains(old_files[last - i]));
            }
            assert forall|i: int| 0 <= i < given.len() implies new_files.contains(
                #[trigger] given[i],
            ) by {
                assert(old_files.contains(given[i]));
                let k = choose|k: int| 0 <= k < old_files.len() && old_files[k] == given[i];
                assert(new_files[last - k] == old_files[k]) by {
                    assert(rising[last - k] == falling[k]);
                }
            }
        }
        Ok(App { root: root.to_owned(), entries: rising })
    }
}

impl App {
    /// The place of the file under `path`, if there is one.
    fn find(&self, path: &str) -> (r: Option<usize>)
        ensures
            match r {
                Some(i) => i < self.entries.len() && self.entries[i as int]@.path == path@
                    && self@.includes(path@) && self@.position(path@) == i,
                None => !self@.includes(path@),
            },
    {
        proof {
            use_type_invariant(self);
        }
        let wanted = chars_of(path);
        let ghost files = files_of(self.entries@);
        let mut i: usize = 0;
        while i < self.entries.len()
            invariant
                i <= self.entries.len(),
                wanted@ == path@,
                well_kept(self.entries@),
                files == files_of(self.entries@),
                forall|k: int| 0 <= k < i ==> (#[trigger] files[k]).path != path@,
            decreases self.entries.len() - i,
        {
            match order_chars(&self.entries[i].chars, &wanted) {
                Order::Equal => {
                    proof {
                        assert(files[i as int].path == path@);
                        let at = self@.position(path@);
                        if at < i {
                            lemma_lt_asymmetric(files[at].path, files[i as int].path);
                        }
                        if at > i {
                            lemma_lt_asymmetric(files[i as int].path, files[at].path);
                        }
                    }
                    return Some(i);
                },
                Order::Greater => {
                    proof {
                        assert forall|k: int| i <= k < files.len() implies (#[trigger] files[k]).path
                            != path@ by {
                            if k > i {
                                assert(seq_lt(files[i as int].path, files[k].path));
                                lemma_lt_transitive(path@, files[i as int].path, files[k].path);
                            }
                            lemma_lt_asymmetric(path@, files[k].path);
                        }
                    }
                    return None;
                },
                Order::Less => {
                    proof {
                        lemma_lt_asymmetric(files[i as int].path, path@);
                    }
                },
            }
            i += 1;
        }
        None
    }

    /// The source root that the snapshot was taken of.
    pub fn root(&self) -> (r: &str)
        ensures
            r@ == self@.root,
    {
        self.root.as_str()
    }

    /// The relative paths of all files, in lexicographic order.
    pub fn paths(&self) -> (r: Vec<String>)
        ensures
            r.deep_view() == self@.paths(),
            rising(r.deep_view()),
            forall|i: int| 0 <= i < r.len() ==> inside_root(#[trigger] r.deep_view()[i]),
    {
        proof {
            use_type_invariant(self);
        }
        let ghost files = files_of(self.entries@);
        let mut paths: Vec<String> = Vec::new();
        let mut i: usize = 0;
        while i < self.entries.len()
            invariant
                i <= self.entries.len(),
                paths.len() == i,
                forall|k: int| 0 <= k < i ==> paths.deep_view()[k] == self.entries[k].path@,
            decreases self.entries.len() - i,
        {
            let ghost before = paths.deep_view();
            paths.push(self.entries[i].path.clone());
            proof {
                assert(paths.deep_view() =~= before.push(self.entries[i as int].path@));
            }
            i += 1;
        }
        proof {
            assert(paths.deep_view() =~= self@.paths());
            assert forall|a: int, b: int| 0 <= a < b < paths.len() implies seq_lt(
                #[trigger] paths.deep_view()[a],
                #[trigger] paths.deep_view()[b],
            ) by {
                assert(seq_lt(files[a].path, files[b].path));
            }
        }
        paths
    }

    /// How many files the snapshot holds.
    pub fn len(&self) -> (r: usize)
        ensures
            r == self@.files.len(),
    {
        self.entries.len()
    }

    /// Whether a file lies under exactly the relative path `path`.
    pub fn includes_file(&self, path: &str) -> (r: bool)
        ensures
            r == self@.includes(path@),
    {
        self.find(path).is_some()
    }

    /// The text of the file under `path`; an I/O error where there is no such
    /// file or it is not text.
    pub fn read_file(&self, path: &str) -> (r: Result<String, Error>)
        ensures
            match self@.text(path@) {
                Some(text) => r is Ok && r->Ok_0@ == text,
                None => r == Err::<String, Error>(Error::Io),
            },
    {
        match self.find(path) {
            Some(i) => match &self.entries[i].contents {
                Some(text) => Ok(text.clone()),
                None => Err(Error::Io),
            },
            None => Err(Error::Io),
        }
    }

    /// The JSON document in the file under `path`; an I/O error where the file
    /// cannot be read, a parse error where its text is not JSON.
    pub fn read_json(&self, path: &str) -> (r: Result<Json, Error>)
        ensures
            match self@.text(path@) {
                Some(text) => match json_document(text) {
                    Some(doc) => r is Ok && r->Ok_0.deep_view() == doc,
                    None => r == Err::<Json, Error>(Error::Parse),
                },
                None => r == Err::<Json, Error>(Error::Io),
            },
    {
        match self.read_file(path) {
            Ok(text) => Json::parse(text.as_str()),
            Err(e) => Err(e),
        }
    }

    /// The relative paths of the files that the glob `pattern` matches, in
    /// lexicographic order; an invalid glob is a parse error.
    pub fn find_files(&self, pattern: &str) -> (r: Result<Vec<String>, Error>)
        ensures
            glob_valid(pattern@) ==> r is Ok && r->Ok_0.deep_view() == self@.matching(pattern@),
            !glob_valid(pattern@) ==> r == Err::<Vec<String>, Error>(Error::Parse),
            r is Ok ==> rising(r->Ok_0.deep_view()),
    {
        let glob = match Glob::new(pattern) {
            Ok(glob) => glob,
            Err(e) => {
                return Err(e);
            },
        };
        proof {
            use_type_invariant(self);
        }
        let ghost paths = self@.paths();
        let ghost wanted = |path: Seq<char>| glob_matches(pattern@, path);
        let mut found: Vec<String> = Vec::new();
        let mut i: usize = 0;
        proof {
            assert(paths.take(0) =~= seq![]);
            assert(found.deep_view() =~= seq![]);
            reveal(Seq::filter);
            assert(paths.take(0).filter(wanted) =~= seq![]);
        }
        while i < self.entries.len()
            invariant
                i <= self.entries.len(),
                well_kept(self.entries@),
                glob@ == pattern@,
                paths == self@.paths(),
                wanted == (|path: Seq<char>| glob_matches(pattern@, path)),
                found.deep_view() == paths.take(i as int).filter(wanted),
            decreases self.entries.len() - i,
        {
            let ghost before = found.deep_view();
            proof {
                assert(paths.take(i + 1) =~= paths.take(i as int).push(paths[i as int]));
                paths.take(i as int).lemma_filter_push(paths[i as int], wanted);
                assert(paths[i as int] == self.entries[i as int].path@);
            }
            if glob.matches_chars(&self.entries[i].chars) {
                found.push(self.entries[i].path.clone());
                proof {
                    assert(found.deep_view() =~= before.push(paths[i as int]));
                }
            }
            i += 1;
        }
        proof {
            assert(paths.take(i as int) =~= paths);
            assert(rising(paths)) by {
                let files = files_of(self.entries@);
                assert forall|a: int, b: int| 0 <= a < b < paths.len() implies seq_lt(
                    #[trigger] paths[a],
                    #[trigger] paths[b],
                ) by {
                    assert(seq_lt(files[a].path, files[b].path));
                }
            }
            lemma_filter_keeps_order(paths, wanted);
        }
        Ok(found)
    }

    /// Whether the regular expression `regex` matches in some text file whose
    /// path the glob `pattern` matches. A regular expression that does not
    /// compile, and an invalid glob, is a parse error. Files that are not text
    /// match nothing.
    pub fn find_match(&self, regex: &str, pattern: &str) -> (r: Result<bool, Error>)
        ensures
            r == (if regex_compiles(regex@) && glob_valid(pattern@) {
                Ok::<bool, Error>(self@.any_match(regex@, pattern@))
            } else {
                Err::<bool, Error>(Error::Parse)
            }),
    {
        let glob = match Glob::new(pattern) {
            Ok(glob) => glob,
            Err(e) => {
                return Err(e);
            },
        };
        let compiled = match Pattern::new(regex) {
            Ok(compiled) => compiled,
            Err(e) => {
                return Err(e);
            },
        };
        proof {
            use_type_invariant(self);
        }
        let ghost files = self@.files;
        let mut i: usize = 0;
        while i < self.entries.len()
            invariant
                i <= self.entries.len(),
                well_kept(self.entries@),
                glob@ == pattern@,
                glob_valid(pattern@),
                regex_compiles(regex@),
                compiled@ == regex@,
                files == self@.files,
                forall|k: int| 0 <= k < i ==> !file_matches(#[trigger] files[k], regex@, pattern@),
            decreases self.entries.len() - i,
        {
            proof {
                assert(files[i as int] == self.entries[i as int]@);
            }
            if glob.matches_chars(&self.entries[i].chars) {
                match &self.entries[i].contents {
                    Some(text) => {
                        if compiled.is_match(text.as_str()) {
                            proof {
                                assert(file_matches(files[i as int], regex@, pattern@));
                            }
                            return Ok(true);
                        }
                    },
                    None => {},
                }
            }
            i += 1;
        }
        Ok(false)
    }

    /// The part of the absolute path `path` that follows the source root; a
    /// path error where `path` does not lie below the root.
    pub fn strip_source_path(&self, path: &str) -> (r: Result<String, Error>)
        ensures
            self@.is_below_root(path@) ==> r is Ok && r->Ok_0@ == path@.skip(
                self@.root_prefix().len() as int,
            ),
            !self@.is_below_root(path@) ==> r == Err::<String, Error>(Error::Path),
    {
        let mut prefix = chars_of(self.root.as_str());
        if prefix.len() == 0 || prefix[prefix.len() - 1] != '/' {
            prefix.push('/');
        }
        let chars = chars_of(path);
        if prefix.len() > chars.len() {
            return Err(Error::Path);
        }
        proof {
            assert(prefix@ =~= self@.root_prefix());
        }
        let mut i: usize = 0;
        while i < prefix.len()
            invariant
                i <= prefix.len() <= chars.len(),
                prefix@ == self@.root_prefix(),
                chars@ == path@,
                forall|k: int| 0 <= k < i ==> chars@[k] == prefix@[k],
            decreases prefix.len() - i,
        {
            if chars[i] != prefix[i] {
                proof {
                    assert(chars@.take(prefix.len() as int)[i as int] == chars@[i as int]);
                }
                return Err(Error::Path);
            }
            i += 1;
        }
        proof {
            assert(chars@.take(prefix.len() as int) =~= prefix@);
        }
        let rest = string_of_range(&chars, prefix.len(), chars.len());
        proof {
            assert(chars@.subrange(prefix.len() as int, chars.len() as int) =~= chars@.skip(
                prefix.len() as int,
            ));
        }
        let rest_chars = chars_of(rest.as_str());
        if is_inside_root(&rest_chars) {
            Ok(rest)
        } else {
            Err(Error::Path)
        }
    }
}

} // verus!
