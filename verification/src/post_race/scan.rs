//! Finding the result files below a folder.
//!
//! Reading a folder is the caller's part: it asks which folder to read next and
//! hands back what it found there. The scan decides what to keep and how deep to
//! go.

use vstd::prelude::*;

use crate::paths;
use crate::text;

verus! {

/// How deep below the results folder the scan goes. Results are nested a couple
/// of levels at most; the limit is about a link that points back at its own
/// parent.
pub const MAX_SCAN_DEPTH: usize = 8;

/// The folder that the game writes results to.
pub fn default_results_folder() -> (folder: Option<String>)
    ensures
        folder matches Some(f) && f@
            == "C:\\Program Files (x86)\\Steam\\steamapps\\common\\Le Mans Ultimate\\UserData\\Log\\Results"@,
{
    Some(
        "C:\\Program Files (x86)\\Steam\\steamapps\\common\\Le Mans Ultimate\\UserData\\Log\\Results".to_owned(),
    )
}

/// Something in a folder.
#[derive(Debug)]
pub struct FolderEntry {
    /// Its full path.
    pub path: String,
    /// Its own name.
    pub name: String,
    pub is_dir: bool,
}

/// Something in a folder.
pub struct Entry {
    pub path: Seq<char>,
    pub name: Seq<char>,
    pub is_dir: bool,
}

impl View for FolderEntry {
    type V = Entry;

    open spec fn view(&self) -> Entry {
        Entry { path: self.path@, name: self.name@, is_dir: self.is_dir }
    }
}

/// What a folder holds.
pub open spec fn entries(v: Seq<FolderEntry>) -> Seq<Entry> {
    Seq::new(v.len(), |i: int| v[i]@)
}

/// Whether a file is a result.
pub open spec fn is_result(e: Entry) -> bool {
    paths::extension(e.name) == Some("xml"@)
}

/// The results in a folder and below it, where `disk` says what each folder holds
/// (nothing, if it cannot be read). Folders are entered where they stand in the
/// listing, and not below the depth limit.
pub open spec fn results_in(
    disk: spec_fn(Seq<char>) -> Seq<Entry>,
    folder: Seq<char>,
    depth: int,
) -> Seq<Seq<char>>
    decreases MAX_SCAN_DEPTH + 2 - depth, 1int, 0int,
{
    if depth > MAX_SCAN_DEPTH {
        Seq::empty()
    } else {
        results_among(disk, disk(folder), depth)
    }
}

/// The results among what a folder at this depth holds, and below it.
pub open spec fn results_among(
    disk: spec_fn(Seq<char>) -> Seq<Entry>,
    list: Seq<Entry>,
    depth: int,
) -> Seq<Seq<char>>
    decreases MAX_SCAN_DEPTH + 2 - depth, 0int, list.len(),
{
    if list.len() == 0 || depth > MAX_SCAN_DEPTH {
        Seq::empty()
    } else {
        let first = if list[0].is_dir {
            results_in(disk, list[0].path, depth + 1)
        } else if is_result(list[0]) {
            seq![list[0].path]
        } else {
            Seq::empty()
        };
        first + results_among(disk, list.skip(1), depth)
    }
}

/// How many folders a scan of a folder reads, the folder itself with them.
pub open spec fn folders_in(
    disk: spec_fn(Seq<char>) -> Seq<Entry>,
    folder: Seq<char>,
    depth: int,
) -> nat
    decreases MAX_SCAN_DEPTH + 2 - depth, 1int, 0int,
{
    if depth > MAX_SCAN_DEPTH {
        0
    } else {
        1 + folders_among(disk, disk(folder), depth)
    }
}

/// How many folders are read among what a folder at this depth holds, and below it.
pub open spec fn folders_among(
    disk: spec_fn(Seq<char>) -> Seq<Entry>,
    list: Seq<Entry>,
    depth: int,
) -> nat
    decreases MAX_SCAN_DEPTH + 2 - depth, 0int, list.len(),
{
    if list.len() == 0 || depth > MAX_SCAN_DEPTH {
        0
    } else {
        (if list[0].is_dir {
            folders_in(disk, list[0].path, depth + 1)
        } else {
            0
        }) + folders_among(disk, list.skip(1), depth)
    }
}

/// A folder that is still to be read, or a file that is still to be looked at.
#[derive(Debug)]
struct Pending {
    entry: FolderEntry,
    /// The depth of the folder that it stands in.
    depth: usize,
}

/// A scan of the results folder.
#[derive(Debug)]
pub struct FolderScan {
    /// What is left to look at, the next at the end.
    pending: Vec<Pending>,
    /// The folder that is being read, and its depth.
    reading: Option<(String, usize)>,
    found: Vec<String>,
}

/// The results that what is left will yield.
spec fn left_to_find(
    disk: spec_fn(Seq<char>) -> Seq<Entry>,
    pending: Seq<Pending>,
) -> Seq<Seq<char>>
    decreases pending.len(),
{
    if pending.len() == 0 {
        Seq::empty()
    } else {
        let e = pending.last().entry@;
        let first = if e.is_dir {
            results_in(disk, e.path, pending.last().depth + 1)
        } else if is_result(e) {
            seq![e.path]
        } else {
            Seq::empty()
        };
        first + left_to_find(disk, pending.drop_last())
    }
}

/// How many folders will be read of what is left.
spec fn left_to_read(disk: spec_fn(Seq<char>) -> Seq<Entry>, pending: Seq<Pending>) -> nat
    decreases pending.len(),
{
    if pending.len() == 0 {
        0
    } else {
        let e = pending.last().entry@;
        (if e.is_dir {
            folders_in(disk, e.path, pending.last().depth + 1)
        } else {
            0
        }) + left_to_read(disk, pending.drop_last())
    }
}

/// What a list of entries adds to what is left.
proof fn lemma_left_to_find(
    disk: spec_fn(Seq<char>) -> Seq<Entry>,
    pending: Seq<Pending>,
    list: Seq<Entry>,
    depth: usize,
    all: Seq<Pending>,
)
    requires
        depth <= MAX_SCAN_DEPTH,
        all.len() == pending.len() + list.len(),
        all.take(pending.len() as int) == pending,
        forall|i: int|
            0 <= i < list.len() ==> (#[trigger] all[pending.len() + i]).entry@ == list[list.len()
                - 1 - i] && all[pending.len() + i].depth == depth,
    ensures
        left_to_find(disk, all) == results_among(disk, list, depth as int) + left_to_find(
            disk,
            pending,
        ),
        left_to_read(disk, all) == folders_among(disk, list, depth as int) + left_to_read(
            disk,
            pending,
        ),
    decreases list.len(),
{
    if list.len() == 0 {
        assert(all == pending);
        assert(results_among(disk, list, depth as int) + left_to_find(disk, pending)
            == left_to_find(disk, pending));
    } else {
        let rest = list.skip(1);
        let fewer = all.drop_last();
        assert(all[pending.len() + (list.len() - 1)].entry@ == list[0]);
        assert(all.last() == all[pending.len() + (list.len() - 1)]);
        assert(fewer.take(pending.len() as int) == pending);
        assert forall|i: int| 0 <= i < rest.len() implies (#[trigger] fewer[pending.len()
            + i]).entry@ == rest[rest.len() - 1 - i] && fewer[pending.len() + i].depth == depth by {
            assert(all[pending.len() + i].entry@ == list[list.len() - 1 - i]);
        }
        lemma_left_to_find(disk, pending, rest, depth, fewer);
        let first = if list[0].is_dir {
            results_in(disk, list[0].path, depth + 1)
        } else if is_result(list[0]) {
            seq![list[0].path]
        } else {
            Seq::empty()
        };
        assert(left_to_find(disk, all) == first + left_to_find(disk, fewer));
        assert(first + (results_among(disk, rest, depth as int) + left_to_find(disk, pending))
            == (first + results_among(disk, rest, depth as int)) + left_to_find(disk, pending));
    }
}

/// Starts a scan of the folder that holds the results.
pub fn scan_results_folder(folder: &str) -> (scan: FolderScan)
    ensures
        scan.results()@.len() == 0,
        scan.folder() == Some(folder@),
        forall|disk: spec_fn(Seq<char>) -> Seq<Entry>| #[trigger]
            scan.will_find(disk) == results_in(disk, folder@, 0),
        forall|disk: spec_fn(Seq<char>) -> Seq<Entry>| #[trigger]
            scan.reads_left(disk) == folders_in(disk, folder@, 0),
{
    let scan = FolderScan {
        pending: Vec::new(),
        reading: Some((folder.to_owned(), 0)),
        found: Vec::new(),
    };
    proof {
        assert forall|disk: spec_fn(Seq<char>) -> Seq<Entry>| #[trigger]
            scan.will_find(disk) == results_in(disk, folder@, 0) by {
            assert(scan.will_find(disk) =~= results_in(disk, folder@, 0));
        }
    }
    scan
}

impl FolderScan {
    /// The results that the scan has found so far.
    pub closed spec fn results(&self) -> Vec<String> {
        self.found
    }

    /// The folder that is to be read, if any is.
    pub closed spec fn folder(&self) -> Option<Seq<char>> {
        match self.reading {
            Some(r) => Some(r.0@),
            None => None,
        }
    }

    /// The results that the scan will have found at its end, those found so far
    /// with them, on a disk that holds what `disk` says.
    pub closed spec fn will_find(&self, disk: spec_fn(Seq<char>) -> Seq<Entry>) -> Seq<Seq<char>> {
        text::views(self.found@) + (match self.reading {
            Some(r) => results_in(disk, r.0@, r.1 as int),
            None => Seq::empty(),
        }) + left_to_find(disk, self.pending@)
    }

    /// How many folders are still to be read until the scan is over, the one that is
    /// being read with them, on a disk that holds what `disk` says.
    pub closed spec fn reads_left(&self, disk: spec_fn(Seq<char>) -> Seq<Entry>) -> nat {
        (match self.reading {
            Some(r) => 1 + folders_among(disk, disk(r.0@), r.1 as int),
            None => 0,
        }) + left_to_read(disk, self.pending@)
    }

    /// Takes in what the folder holds that was to be read (nothing, if it could not
    /// be read), and says which folder to read next. None means that the scan is
    /// over. With each folder that is taken in there is one less to read, so the
    /// scan ends, whatever the links on the disk are.
    pub fn listed(&mut self, list: Vec<FolderEntry>) -> (next: Option<String>)
        ensures
            forall|disk: spec_fn(Seq<char>) -> Seq<Entry>|
                (old(self).folder() matches Some(f) ==> disk(f) == entries(list@)) ==> #[trigger]
                final(self).will_find(disk) == old(self).will_find(disk),
            forall|disk: spec_fn(Seq<char>) -> Seq<Entry>|
                (old(self).folder() matches Some(f) && disk(f) == entries(list@)) ==> #[trigger]
                final(self).reads_left(disk) + 1 == old(self).reads_left(disk),
            match next {
                Some(f) => final(self).folder() == Some(f@) && forall|
                    disk: spec_fn(Seq<char>) -> Seq<Entry>,
                | #[trigger]
                    final(self).reads_left(disk) > 0,
                None => final(self).folder() is None && forall|
                    disk: spec_fn(Seq<char>) -> Seq<Entry>,
                | #[trigger]
                    final(self).will_find(disk) == text::views(final(self).results()@),
            },
            next is None ==> forall|disk: spec_fn(Seq<char>) -> Seq<Entry>| #[trigger]
                final(self).reads_left(disk) == 0,
    {
        let ghost before = *self;
        let mut reading: Option<(String, usize)> = None;
        std::mem::swap(&mut reading, &mut self.reading);
        if let Some((folder, depth)) = reading {
            let ghost rest = self.pending@;
            let mut list = list;
            let ghost all = entries(list@);
            if depth <= MAX_SCAN_DEPTH {
                while list.len() > 0
                    invariant
                        depth <= MAX_SCAN_DEPTH,
                        list@.len() <= all.len(),
                        entries(list@) == all.take(list@.len() as int),
                        self.found == before.found,
                        self.reading is None,
                        self.pending@.len() == rest.len() + (all.len() - list@.len()),
                        self.pending@.take(rest.len() as int) == rest,
                        forall|i: int|
                            0 <= i < all.len() - list@.len() ==> (#[trigger] self.pending@[rest.len()
                                + i]).entry@ == all[all.len() - 1 - i] && self.pending@[rest.len()
                                + i].depth == depth,
                    decreases list@.len(),
                {
                    let ghost shorter = list@.drop_last();
                    let ghost had = self.pending@;
                    let ghost done = all.len() - list@.len();
                    proof {
                        assert(entries(list@)[list@.len() - 1] == all[list@.len() - 1]);
                        assert(entries(shorter) == all.take(shorter.len() as int)) by {
                            assert forall|i: int| 0 <= i < shorter.len() implies entries(
                                shorter,
                            )[i] == all.take(shorter.len() as int)[i] by {
                                assert(entries(list@)[i] == all.take(list@.len() as int)[i]);
                            }
                        }
                    }
                    if let Some(entry) = list.pop() {
                        self.pending.push(Pending { entry, depth });
                        proof {
                            assert(list@ == shorter);
                            assert(self.pending@.take(rest.len() as int) == rest);
                            assert forall|i: int|
                                0 <= i < all.len() - list@.len() implies (
                            #[trigger] self.pending@[rest.len() + i]).entry@ == all[all.len() - 1
                                - i] && self.pending@[rest.len() + i].depth == depth by {
                                if i < done {
                                    assert(had[rest.len() + i].entry@ == all[all.len() - 1 - i]);
                                }
                            }
                        }
                    }
                }
                proof {
                    assert forall|disk: spec_fn(Seq<char>) -> Seq<Entry>|
                        disk(folder@) == all implies #[trigger] self.will_find(disk)
                        == before.will_find(disk) by {
                        lemma_left_to_find(disk, rest, all, depth, self.pending@);
                        assert(before.will_find(disk) == text::views(before.found@)
                            + results_in(disk, folder@, depth as int) + left_to_find(disk, rest));
                        assert(self.will_find(disk) =~= before.will_find(disk));
                    }
                    assert forall|disk: spec_fn(Seq<char>) -> Seq<Entry>|
                        disk(folder@) == all implies #[trigger] self.reads_left(disk) + 1
                        == before.reads_left(disk) by {
                        lemma_left_to_find(disk, rest, all, depth, self.pending@);
                    }
                }
            } else {
                proof {
                    assert forall|disk: spec_fn(Seq<char>) -> Seq<Entry>| #[trigger]
                        self.will_find(disk) == before.will_find(disk) by {
                        assert(self.will_find(disk) =~= before.will_find(disk));
                    }
                }
            }
        }
        self.advance()
    }

    /// Goes on to the next folder that has to be read.
    fn advance(&mut self) -> (next: Option<String>)
        requires
            old(self).reading is None,
        ensures
            forall|disk: spec_fn(Seq<char>) -> Seq<Entry>| #[trigger]
                final(self).will_find(disk) == old(self).will_find(disk),
            forall|disk: spec_fn(Seq<char>) -> Seq<Entry>| #[trigger]
                final(self).reads_left(disk) == old(self).reads_left(disk),
            match next {
                Some(f) => final(self).folder() == Some(f@),
                None => final(self).folder() is None && final(self).pending@.len() == 0 && forall|
                    disk: spec_fn(Seq<char>) -> Seq<Entry>,
                | #[trigger]
                    final(self).will_find(disk) == text::views(final(self).results()@),
            },
    {
        let ghost before = *self;
        while self.pending.len() > 0
            invariant
                before == *old(self),
                self.reading is None,
                forall|disk: spec_fn(Seq<char>) -> Seq<Entry>| #[trigger]
                    self.will_find(disk) == before.will_find(disk),
                forall|disk: spec_fn(Seq<char>) -> Seq<Entry>| #[trigger]
                    self.reads_left(disk) == before.reads_left(disk),
            decreases self.pending@.len(),
        {
            let ghost prior = *self;
            if let Some(p) = self.pending.pop() {
                let FolderEntry { path, name, is_dir } = p.entry;
                if is_dir {
                    if p.depth < MAX_SCAN_DEPTH {
                        let next = path.clone();
                        self.reading = Some((path, p.depth + 1));
                        proof {
                            assert forall|disk: spec_fn(Seq<char>) -> Seq<Entry>| #[trigger]
                                self.will_find(disk) == before.will_find(disk) by {
                                assert(prior.will_find(disk) == before.will_find(disk));
                                assert(self.will_find(disk) =~= prior.will_find(disk));
                            }
                            assert forall|disk: spec_fn(Seq<char>) -> Seq<Entry>| #[trigger]
                                self.reads_left(disk) == before.reads_left(disk) by {
                                assert(prior.reads_left(disk) == before.reads_left(disk));
                                assert(prior.pending@.drop_last() == self.pending@);
                            }
                        }
                        return Some(next);
                    }
                } else if paths::has_extension(&name, "xml") {
                    self.found.push(path);
                }
                proof {
                    assert forall|disk: spec_fn(Seq<char>) -> Seq<Entry>| #[trigger]
                        self.will_find(disk) == before.will_find(disk) by {
                        assert(prior.will_find(disk) == before.will_find(disk));
                        assert(left_to_find(disk, prior.pending@) == (if is_dir {
                            results_in(disk, path@, p.depth + 1)
                        } else if is_result(prior.pending@.last().entry@) {
                            seq![path@]
                        } else {
                            Seq::empty()
                        }) + left_to_find(disk, self.pending@));
                        assert(self.will_find(disk) =~= prior.will_find(disk));
                    }
                    assert forall|disk: spec_fn(Seq<char>) -> Seq<Entry>| #[trigger]
                        self.reads_left(disk) == before.reads_left(disk) by {
                        assert(prior.reads_left(disk) == before.reads_left(disk));
                        assert(prior.pending@.drop_last() == self.pending@);
                    }
                }
            }
        }
        proof {
            assert forall|disk: spec_fn(Seq<char>) -> Seq<Entry>| #[trigger]
                self.will_find(disk) == text::views(self.found@) by {
                assert(self.will_find(disk) =~= text::views(self.found@));
            }
        }
        None
    }

    /// The results that were found, in the order in which the scan came upon them.
    pub fn into_results(self) -> (found: Vec<String>)
        ensures
            found@ == self.results()@,
    {
        self.found
    }
}

/// A scan never goes below the depth limit, whatever the links on the disk are.
pub proof fn law_the_scan_is_bounded(
    disk: spec_fn(Seq<char>) -> Seq<Entry>,
    folder: Seq<char>,
    depth: int,
)
    requires
        depth > MAX_SCAN_DEPTH,
    ensures
        results_in(disk, folder, depth).len() == 0,
        folders_in(disk, folder, depth) == 0,
{
}

/// A folder that cannot be read, or holds nothing, yields nothing, and no further
/// folder is read.
pub proof fn law_an_unreadable_folder_yields_nothing(
    disk: spec_fn(Seq<char>) -> Seq<Entry>,
    folder: Seq<char>,
)
    requires
        disk(folder).len() == 0,
    ensures
        results_in(disk, folder, 0).len() == 0,
        folders_in(disk, folder, 0) == 1,
{
}

/// A file is a result by its extension.
pub proof fn law_a_result_is_told_by_its_extension(e: Entry)
    ensures
        is_result(e) <==> paths::extension(e.name) == Some("xml"@),
{
}

/// What is found in a folder is found entry by entry, in their order: a file that is a
/// result by its path, another file not at all, and a folder by what is in it, one
/// level deeper. Nothing is found more than eight levels down.
pub proof fn law_results_are_found_entry_by_entry(
    disk: spec_fn(Seq<char>) -> Seq<Entry>,
    folder: Seq<char>,
    e: Entry,
    rest: Seq<Entry>,
    depth: int,
)
    requires
        0 <= depth <= 8,
    ensures
        results_in(disk, folder, depth) == results_among(disk, disk(folder), depth),
        results_among(disk, Seq::empty(), depth).len() == 0,
        e.is_dir && depth < 8 ==> results_among(disk, seq![e] + rest, depth) == results_among(
            disk,
            disk(e.path),
            depth + 1,
        ) + results_among(disk, rest, depth),
        e.is_dir && depth == 8 ==> results_among(disk, seq![e] + rest, depth) == results_among(
            disk,
            rest,
            depth,
        ),
        !e.is_dir && paths::extension(e.name) == Some("xml"@) ==> results_among(
            disk,
            seq![e] + rest,
            depth,
        ) == seq![e.path] + results_among(disk, rest, depth),
        !e.is_dir && paths::extension(e.name) != Some("xml"@) ==> results_among(
            disk,
            seq![e] + rest,
            depth,
        ) == results_among(disk, rest, depth),
{
    let list = seq![e] + rest;
    assert(list[0] == e);
    assert(list.skip(1) =~= rest);
    let more = results_among(disk, rest, depth);
    assert(Seq::<Seq<char>>::empty() + more =~= more);
    if e.is_dir && depth < 8 {
        assert(results_in(disk, e.path, depth + 1) == results_among(
            disk,
            disk(e.path),
            depth + 1,
        ));
    }
    if e.is_dir && depth == 8 {
        assert(results_in(disk, e.path, 9) =~= Seq::<Seq<char>>::empty());
    }
}

proof fn lemma_found_among(
    disk: spec_fn(Seq<char>) -> Seq<Entry>,
    list: Seq<Entry>,
    depth: int,
    i: int,
)
    requires
        0 <= depth <= MAX_SCAN_DEPTH,
        0 <= i < list.len(),
    ensures
        !list[i].is_dir && is_result(list[i]) ==> results_among(disk, list, depth).contains(
            list[i].path,
        ),
        list[i].is_dir ==> forall|p: Seq<char>|
            results_in(disk, list[i].path, depth + 1).contains(p) ==> #[trigger] results_among(
                disk,
                list,
                depth,
            ).contains(p),
    decreases list.len(),
{
    let all = results_among(disk, list, depth);
    let rest = list.skip(1);
    let more = results_among(disk, rest, depth);
    let first = if list[0].is_dir {
        results_in(disk, list[0].path, depth + 1)
    } else if is_result(list[0]) {
        seq![list[0].path]
    } else {
        Seq::empty()
    };
    assert(all == first + more);
    assert forall|p: Seq<char>| first.contains(p) || more.contains(p) implies #[trigger] all.contains(
        p,
    ) by {
        if first.contains(p) {
            let k = choose|k: int| 0 <= k < first.len() && first[k] == p;
            assert(all[k] == p);
        } else {
            let k = choose|k: int| 0 <= k < more.len() && more[k] == p;
            assert(all[first.len() + k] == p);
        }
    }
    if i == 0 {
        if !list[0].is_dir && is_result(list[0]) {
            assert(first[0] == list[0].path);
            assert(first.contains(list[0].path));
        }
    } else {
        assert(rest[i - 1] == list[i]);
        lemma_found_among(disk, rest, depth, i - 1);
    }
}

/// Every result of the folder itself is found, and every result of a folder in it.
pub proof fn law_every_result_is_found(
    disk: spec_fn(Seq<char>) -> Seq<Entry>,
    folder: Seq<char>,
    i: int,
    j: int,
)
    requires
        0 <= i < disk(folder).len(),
    ensures
        !disk(folder)[i].is_dir && paths::extension(disk(folder)[i].name) == Some("xml"@)
            ==> results_in(disk, folder, 0).contains(disk(folder)[i].path),
        disk(folder)[i].is_dir && 0 <= j < disk(disk(folder)[i].path).len() && !disk(
            disk(folder)[i].path,
        )[j].is_dir && paths::extension(disk(disk(folder)[i].path)[j].name) == Some("xml"@)
            ==> results_in(disk, folder, 0).contains(disk(disk(folder)[i].path)[j].path),
{
    lemma_found_among(disk, disk(folder), 0, i);
    let e = disk(folder)[i];
    if e.is_dir && 0 <= j < disk(e.path).len() {
        lemma_found_among(disk, disk(e.path), 1, j);
        let f = disk(e.path)[j];
        if !f.is_dir && is_result(f) {
            assert(results_in(disk, e.path, 1).contains(f.path));
            assert(results_among(disk, disk(folder), 0).contains(f.path));
        }
    }
}

proof fn lemma_found_is_a_result(
    disk: spec_fn(Seq<char>) -> Seq<Entry>,
    list: Seq<Entry>,
    depth: int,
    k: int,
) -> (e: Entry)
    requires
        0 <= k < results_among(disk, list, depth).len(),
    ensures
        !e.is_dir,
        is_result(e),
        e.path == results_among(disk, list, depth)[k],
        list.contains(e) || exists|f: Seq<char>| #[trigger] disk(f).contains(e),
    decreases MAX_SCAN_DEPTH + 2 - depth, list.len(),
{
    let all = results_among(disk, list, depth);
    let rest = list.skip(1);
    let more = results_among(disk, rest, depth);
    let first = if list[0].is_dir {
        results_in(disk, list[0].path, depth + 1)
    } else if is_result(list[0]) {
        seq![list[0].path]
    } else {
        Seq::empty()
    };
    assert(all == first + more);
    if k < first.len() {
        if list[0].is_dir {
            assert(depth + 1 <= MAX_SCAN_DEPTH);
            let e = lemma_found_is_a_result(disk, disk(list[0].path), depth + 1, k);
            assert(exists|f: Seq<char>| #[trigger] disk(f).contains(e)) by {
                if disk(list[0].path).contains(e) {
                    assert(disk(list[0].path).contains(e));
                }
            }
            e
        } else {
            assert(list.contains(list[0]));
            list[0]
        }
    } else {
        let e = lemma_found_is_a_result(disk, rest, depth, k - first.len());
        if rest.contains(e) {
            let i = choose|i: int| 0 <= i < rest.len() && rest[i] == e;
            assert(list[i + 1] == e);
        }
        e
    }
}

/// Nothing is found that is not there: everything found is the path of a file that some
/// folder holds, and a result by its extension.
pub proof fn law_only_results_are_found(
    disk: spec_fn(Seq<char>) -> Seq<Entry>,
    folder: Seq<char>,
    k: int,
) -> (e: Entry)
    requires
        0 <= k < results_in(disk, folder, 0).len(),
    ensures
        !e.is_dir,
        paths::extension(e.name) == Some("xml"@),
        e.path == results_in(disk, folder, 0)[k],
        exists|f: Seq<char>| #[trigger] disk(f).contains(e),
{
    let e = lemma_found_is_a_result(disk, disk(folder), 0, k);
    if disk(folder).contains(e) {
        assert(disk(folder).contains(e));
    }
    e
}

/// Without a word from the user results are where Steam puts them.
pub proof fn law_results_are_in_the_game_folder(folder: Option<String>)
    requires
        call_ensures(default_results_folder, (), folder),
    ensures
        folder is Some,
        folder->Some_0@
            == "C:\\Program Files (x86)\\Steam\\steamapps\\common\\Le Mans Ultimate\\UserData\\Log\\Results"@,
{
}

/// A scan of a folder reads it first and ends with the results below it, one file after
/// the other as they are listed.
pub proof fn law_a_scan_finds_what_is_below_its_folder(
    folder: &str,
    scan: FolderScan,
    disk: spec_fn(Seq<char>) -> Seq<Entry>,
)
    requires
        call_ensures(scan_results_folder, (folder,), scan),
    ensures
        scan.folder() == Some(folder@),
        scan.results()@.len() == 0,
        scan.will_find(disk) == results_among(disk, disk(folder@), 0),
        scan.reads_left(disk) == 1 + folders_among(disk, disk(folder@), 0),
{
    assert(scan.will_find(disk) == results_in(disk, folder@, 0));
    assert(scan.reads_left(disk) == folders_in(disk, folder@, 0));
}

/// Taking in a folder changes nothing of what will have been found, leaves one folder
/// less to read, and the scan is over with everything found when none is left.
pub proof fn law_a_scan_goes_on_folder_by_folder(
    scan: &mut FolderScan,
    list: Vec<FolderEntry>,
    next: Option<String>,
    disk: spec_fn(Seq<char>) -> Seq<Entry>,
)
    requires
        call_ensures(FolderScan::listed, (scan, list), next),
        old(scan).folder() is Some,
        disk(old(scan).folder()->Some_0) == entries(list@),
    ensures
        final(scan).will_find(disk) == old(scan).will_find(disk),
        final(scan).reads_left(disk) + 1 == old(scan).reads_left(disk),
        next is Some ==> final(scan).folder() == Some(next->Some_0@),
        next is None ==> final(scan).folder() is None && text::views(final(scan).results()@)
            == old(scan).will_find(disk),
        next is None <==> final(scan).reads_left(disk) == 0,
{
    assert(final(scan).will_find(disk) == old(scan).will_find(disk));
}

/// The results of a scan are handed over as they were found.
pub proof fn law_a_scan_hands_over_what_it_found(scan: FolderScan, found: Vec<String>)
    requires
        call_ensures(FolderScan::into_results, (scan,), found),
    ensures
        found@ == scan.results()@,
{
}

} // verus!
