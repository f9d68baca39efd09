//! What kind of file an export is, and where in an archive's listing the
//! blog's database lies.

use crate::path::{file_name_of, PathSegments};
use crate::Error;
use vstd::prelude::*;

verus! {

/// The kinds of input that are told apart by their content.
#[derive(Debug, Clone, Copy, PartialEq, Eq, Hash, Structural)]
pub enum FileType {
    Sqlite3,
    Tar,
    TarGz,
    TarBz2,
}

/// How the bytes of an archive are decoded before the tar entries are read.
#[derive(Debug, Clone, Copy, PartialEq, Eq, Hash, Structural)]
pub enum Decoder {
    Plain,
    Gzip,
    Bzip2,
}

/// The kind of file that a media type stands for.
pub open spec fn file_type_of(media_type: Seq<char>) -> Option<FileType> {
    if media_type == "application/vnd.sqlite3"@ {
        Some(FileType::Sqlite3)
    } else if media_type == "application/x-tar"@ {
        Some(FileType::Tar)
    } else if media_type == "application/gzip"@ {
        Some(FileType::TarGz)
    } else if media_type == "application/x-bzip"@ {
        Some(FileType::TarBz2)
    } else {
        None
    }
}

/// The decoder for a sniffed kind of file; only the three archive kinds
/// have one.
pub open spec fn decoder_of(sniffed: Option<FileType>) -> Result<Decoder, Error> {
    match sniffed {
        Some(FileType::Tar) => Ok(Decoder::Plain),
        Some(FileType::TarGz) => Ok(Decoder::Gzip),
        Some(FileType::TarBz2) => Ok(Decoder::Bzip2),
        _ => Err(Error::NotTar),
    }
}

fn same_text(a: &str, b: &str) -> (r: bool)
    ensures
        r == (a@ == b@),
{
    a.to_owned() == b.to_owned()
}

impl FileType {
    /// Classifies an input by the media type that was sniffed from its
    /// content.
    pub fn from_media_type(media_type: &str) -> (r: Option<FileType>)
        ensures
            r == file_type_of(media_type@),
    {
        if same_text(media_type, "application/vnd.sqlite3") {
            Some(FileType::Sqlite3)
        } else if same_text(media_type, "application/x-tar") {
            Some(FileType::Tar)
        } else if same_text(media_type, "application/gzip") {
            Some(FileType::TarGz)
        } else if same_text(media_type, "application/x-bzip") {
            Some(FileType::TarBz2)
        } else {
            None
        }
    }
}

/// Chooses the decoder for an input of the sniffed kind, or refuses the
/// input as no archive.
pub fn try_archive(sniffed: Option<FileType>) -> (r: Result<Decoder, Error>)
    ensures
        r == decoder_of(sniffed),
{
    match sniffed {
        Some(FileType::Tar) => Ok(Decoder::Plain),
        Some(FileType::TarGz) => Ok(Decoder::Gzip),
        Some(FileType::TarBz2) => Ok(Decoder::Bzip2),
        _ => Err(Error::NotTar),
    }
}

/// The views of a list of paths.
pub open spec fn paths_view(paths: Seq<PathSegments>) -> Seq<Seq<Seq<char>>> {
    Seq::new(paths.len(), |i: int| paths[i]@)
}

/// Whether the path's file name is exactly `ghost.db`.
pub open spec fn is_ghost_db(path: Seq<Seq<char>>) -> bool {
    file_name_of(path) == Some("ghost.db"@)
}

/// Whether the path lies in the search area: under the prefix, where one
/// is given.
pub open spec fn in_search_area(path: Seq<Seq<char>>, prefix: Option<Seq<Seq<char>>>) -> bool {
    match prefix {
        Some(prefix) => prefix.is_prefix_of(path),
        None => true,
    }
}

/// The view of an optional prefix.
pub open spec fn prefix_view(prefix: Option<PathSegments>) -> Option<Seq<Seq<char>>> {
    match prefix {
        Some(prefix) => Some(prefix@),
        None => None,
    }
}

/// The databases of a listing, in the order of the listing.
pub open spec fn ghost_dbs(entries: Seq<Seq<Seq<char>>>) -> Seq<Seq<Seq<char>>> {
    entries.filter(|path: Seq<Seq<char>>| is_ghost_db(path))
}

/// The paths of a list that lie in the search area.
pub open spec fn within(paths: Seq<Seq<Seq<char>>>, prefix: Option<Seq<Seq<char>>>) -> Seq<
    Seq<Seq<char>>,
> {
    paths.filter(|path: Seq<Seq<char>>| in_search_area(path, prefix))
}

/// The one database in the search area, or why there is none to name:
/// none lies there, or more than one does.
pub open spec fn located(entries: Seq<Seq<Seq<char>>>, prefix: Option<Seq<Seq<char>>>) -> Result<
    Seq<Seq<char>>,
    Error,
> {
    let found = within(ghost_dbs(entries), prefix);
    if found.len() == 0 {
        Err(Error::GhostDbNotFound)
    } else if found.len() == 1 {
        Ok(found[0])
    } else {
        Err(Error::MultipleGhostDb)
    }
}

/// Whether the path is a database that lies in the search area.
pub open spec fn is_candidate(path: Seq<Seq<char>>, prefix: Option<Seq<Seq<char>>>) -> bool {
    is_ghost_db(path) && in_search_area(path, prefix)
}

/// Filtering a list of which no path is kept leaves nothing.
proof fn lemma_filter_nothing(all: Seq<Seq<Seq<char>>>, keep: spec_fn(Seq<Seq<char>>) -> bool)
    requires
        forall|i: int| 0 <= i < all.len() ==> !keep(#[trigger] all[i]),
    ensures
        all.filter(keep).len() == 0,
    decreases all.len(),
{
    reveal(Seq::filter);
    if all.len() > 0 {
        let shorter = all.drop_last();
        assert forall|i: int| 0 <= i < shorter.len() implies !keep(#[trigger] shorter[i]) by {
            assert(shorter[i] == all[i]);
        }
        lemma_filter_nothing(shorter, keep);
        assert(!keep(all[all.len() - 1]));
    }
}

/// Filtering a list of which exactly one path is kept leaves that path.
proof fn lemma_filter_one(
    all: Seq<Seq<Seq<char>>>,
    keep: spec_fn(Seq<Seq<char>>) -> bool,
    i: int,
)
    requires
        0 <= i < all.len(),
        keep(all[i]),
        forall|j: int| 0 <= j < all.len() && j != i ==> !keep(#[trigger] all[j]),
    ensures
        all.filter(keep) == seq![all[i]],
    decreases all.len(),
{
    reveal(Seq::filter);
    let shorter = all.drop_last();
    assert forall|j: int| 0 <= j < shorter.len() && j != i implies !keep(
        #[trigger] shorter[j],
    ) by {
        assert(shorter[j] == all[j]);
    }
    if i == all.len() - 1 {
        lemma_filter_nothing(shorter, keep);
        assert(all.filter(keep) =~= seq![all[i]]);
    } else {
        assert(shorter[i] == all[i]);
        lemma_filter_one(shorter, keep, i);
        assert(!keep(all[all.len() - 1]));
    }
}

/// Filtering a list of which a path is kept leaves at least that one.
proof fn lemma_filter_some(
    all: Seq<Seq<Seq<char>>>,
    keep: spec_fn(Seq<Seq<char>>) -> bool,
    i: int,
)
    requires
        0 <= i < all.len(),
        keep(all[i]),
    ensures
        all.filter(keep).len() >= 1,
    decreases all.len(),
{
    reveal(Seq::filter);
    if i < all.len() - 1 {
        assert(all.drop_last()[i] == all[i]);
        lemma_filter_some(all.drop_last(), keep, i);
    }
}

/// Filtering a list of which two paths are kept leaves at least two.
proof fn lemma_filter_two(
    all: Seq<Seq<Seq<char>>>,
    keep: spec_fn(Seq<Seq<char>>) -> bool,
    i: int,
    j: int,
)
    requires
        0 <= i < j < all.len(),
        keep(all[i]),
        keep(all[j]),
    ensures
        all.filter(keep).len() >= 2,
    decreases all.len(),
{
    reveal(Seq::filter);
    let shorter = all.drop_last();
    assert(shorter[i] == all[i]);
    if j == all.len() - 1 {
        lemma_filter_some(shorter, keep, i);
    } else {
        assert(shorter[j] == all[j]);
        lemma_filter_two(shorter, keep, i, j);
    }
}

/// The databases in the search area are the entries that are a database
/// and lie in the search area, in the order of the listing.
pub proof fn lemma_found_are_candidates(
    entries: Seq<Seq<Seq<char>>>,
    prefix: Option<Seq<Seq<char>>>,
)
    ensures
        within(ghost_dbs(entries), prefix) == entries.filter(
            |path: Seq<Seq<char>>| is_candidate(path, prefix),
        ),
    decreases entries.len(),
{
    reveal(Seq::filter);
    let both = |path: Seq<Seq<char>>| is_candidate(path, prefix);
    if entries.len() > 0 {
        let shorter = entries.drop_last();
        let last = entries.last();
        lemma_found_are_candidates(shorter, prefix);
        if is_ghost_db(last) {
            let dbs = ghost_dbs(shorter).push(last);
            assert(ghost_dbs(entries) == dbs);
            assert(dbs.drop_last() =~= ghost_dbs(shorter));
            assert(dbs.last() == last);
        }
    } else {
        assert(ghost_dbs(entries) =~= Seq::<Seq<Seq<char>>>::empty());
    }
}

/// A listing without a database in the search area: locating fails, for
/// none is found.
pub proof fn lemma_located_none(entries: Seq<Seq<Seq<char>>>, prefix: Option<Seq<Seq<char>>>)
    requires
        forall|i: int| 0 <= i < entries.len() ==> !is_candidate(#[trigger] entries[i], prefix),
    ensures
        located(entries, prefix) == Err::<Seq<Seq<char>>, Error>(Error::GhostDbNotFound),
{
    let both = |path: Seq<Seq<char>>| is_candidate(path, prefix);
    lemma_found_are_candidates(entries, prefix);
    lemma_filter_nothing(entries, both);
}

/// A listing with exactly one database in the search area: locating
/// yields the path of that one.
pub proof fn lemma_located_one(
    entries: Seq<Seq<Seq<char>>>,
    prefix: Option<Seq<Seq<char>>>,
    i: int,
)
    requires
        0 <= i < entries.len(),
        is_candidate(entries[i], prefix),
        forall|j: int|
            0 <= j < entries.len() && j != i ==> !is_candidate(#[trigger] entries[j], prefix),
    ensures
        located(entries, prefix) == Ok::<Seq<Seq<char>>, Error>(entries[i]),
{
    let both = |path: Seq<Seq<char>>| is_candidate(path, prefix);
    lemma_found_are_candidates(entries, prefix);
    lemma_filter_one(entries, both, i);
}

/// A listing with two databases in the search area, or more: locating
/// fails, for the choice is not clear.
pub proof fn lemma_located_many(
    entries: Seq<Seq<Seq<char>>>,
    prefix: Option<Seq<Seq<char>>>,
    i: int,
    j: int,
)
    requires
        0 <= i < j < entries.len(),
        is_candidate(entries[i], prefix),
        is_candidate(entries[j], prefix),
    ensures
        located(entries, prefix) == Err::<Seq<Seq<char>>, Error>(Error::MultipleGhostDb),
{
    let both = |path: Seq<Seq<char>>| is_candidate(path, prefix);
    lemma_found_are_candidates(entries, prefix);
    lemma_filter_two(entries, both, i, j);
}

/// Every path that a filter leaves stands in the list and is kept.
proof fn lemma_filter_member(
    all: Seq<Seq<Seq<char>>>,
    keep: spec_fn(Seq<Seq<char>>) -> bool,
    k: int,
)
    requires
        0 <= k < all.filter(keep).len(),
    ensures
        exists|i: int| 0 <= i < all.len() && #[trigger] all[i] == all.filter(keep)[k] && keep(all[i]),
    decreases all.len(),
{
    reveal(Seq::filter);
    if all.len() > 0 {
        let shorter = all.drop_last();
        if keep(all.last()) && k == shorter.filter(keep).len() {
            assert(all[all.len() - 1] == all.filter(keep)[k]);
        } else {
            lemma_filter_member(shorter, keep, k);
            let i = choose|i: int|
                0 <= i < shorter.len() && #[trigger] shorter[i] == shorter.filter(keep)[k] && keep(
                    shorter[i],
                );
            assert(all[i] == all.filter(keep)[k]);
        }
    }
}

/// The located database is an entry of the listing, a database in the
/// search area, and no second entry has its path.
pub proof fn lemma_located_is_one_entry(
    entries: Seq<Seq<Seq<char>>>,
    prefix: Option<Seq<Seq<char>>>,
    db_path: Seq<Seq<char>>,
)
    requires
        located(entries, prefix) == Ok::<Seq<Seq<char>>, Error>(db_path),
    ensures
        is_candidate(db_path, prefix),
        exists|i: int| 0 <= i < entries.len() && #[trigger] entries[i] == db_path,
        forall|i: int, j: int|
            0 <= i < j < entries.len() ==> !(#[trigger] entries[i] == db_path
                && #[trigger] entries[j] == db_path),
{
    let both = |path: Seq<Seq<char>>| is_candidate(path, prefix);
    lemma_found_are_candidates(entries, prefix);
    assert(entries.filter(both).len() == 1);
    lemma_filter_member(entries, both, 0);
    assert forall|i: int, j: int| 0 <= i < j < entries.len() implies !(#[trigger] entries[i]
        == db_path && #[trigger] entries[j] == db_path) by {
        if entries[i] == db_path && entries[j] == db_path {
            lemma_filter_two(entries, both, i, j);
        }
    }
}

/// Whether an exec result of locating matches the result over views.
pub open spec fn locates(r: Result<PathSegments, Error>, expected: Result<Seq<Seq<char>>, Error>)
    -> bool {
    match r {
        Ok(path) => expected == Ok::<Seq<Seq<char>>, Error>(path@),
        Err(e) => expected == Err::<Seq<Seq<char>>, Error>(e),
    }
}

fn names_ghost_db(path: &PathSegments) -> (r: bool)
    ensures
        r == is_ghost_db(path@),
{
    match path.file_name() {
        Some(name) => name == "ghost.db".to_owned(),
        None => false,
    }
}

fn lies_within(path: &PathSegments, prefix: &Option<PathSegments>) -> (r: bool)
    ensures
        r == in_search_area(path@, prefix_view(*prefix)),
{
    match prefix {
        Some(prefix) => path.starts_with(prefix),
        None => true,
    }
}

/// Whether the entry at `path` counts when the database is looked for: it
/// is named `ghost.db` and lies in the search area.
pub fn is_database_in(path: &PathSegments, prefix: &Option<PathSegments>) -> (r: bool)
    ensures
        r == is_candidate(path@, prefix_view(*prefix)),
{
    names_ghost_db(path) && lies_within(path, prefix)
}

/// Filtering a list that grew by one path at its end.
proof fn lemma_filter_step(
    all: Seq<Seq<Seq<char>>>,
    i: int,
    keep: spec_fn(Seq<Seq<char>>) -> bool,
)
    requires
        0 <= i < all.len(),
    ensures
        all.subrange(0, i + 1).filter(keep) == if keep(all[i]) {
            all.subrange(0, i).filter(keep).push(all[i])
        } else {
            all.subrange(0, i).filter(keep)
        },
{
    reveal(Seq::filter);
    assert(all.subrange(0, i + 1).drop_last() =~= all.subrange(0, i));
}

/// A list holds at least as many kept paths as any of its beginnings.
proof fn lemma_filter_prefix_len(
    all: Seq<Seq<Seq<char>>>,
    i: int,
    keep: spec_fn(Seq<Seq<char>>) -> bool,
)
    requires
        0 <= i <= all.len(),
    ensures
        all.subrange(0, i).filter(keep).len() <= all.filter(keep).len(),
    decreases all.len() - i,
{
    if i < all.len() {
        lemma_filter_step(all, i, keep);
        lemma_filter_prefix_len(all, i + 1, keep);
    } else {
        assert(all.subrange(0, i) =~= all);
    }
}

/// Finds all the databases in an archive's listing, in its order.
pub fn find_ghost_dbs(entries: &Vec<PathSegments>) -> (r: Vec<PathSegments>)
    ensures
        paths_view(r@) == ghost_dbs(paths_view(entries@)),
{
    let ghost all = paths_view(entries@);
    let ghost keep = |path: Seq<Seq<char>>| is_ghost_db(path);
    let mut out: Vec<PathSegments> = Vec::new();
    let mut i: usize = 0;
    assert(all.subrange(0, 0).filter(keep) =~= Seq::<Seq<Seq<char>>>::empty()) by {
        reveal(Seq::filter);
    }
    assert(paths_view(out@) =~= Seq::<Seq<Seq<char>>>::empty());
    while i < entries.len()
        invariant
            i <= entries.len(),
            all == paths_view(entries@),
            keep == |path: Seq<Seq<char>>| is_ghost_db(path),
            paths_view(out@) == all.subrange(0, i as int).filter(keep),
        decreases entries.len() - i,
    {
        proof {
            lemma_filter_step(all, i as int, keep);
        }
        if names_ghost_db(&entries[i]) {
            let ghost before = paths_view(out@);
            out.push(entries[i].duplicate());
            assert(paths_view(out@) =~= before.push(all[i as int]));
        }
        i += 1;
    }
    assert(all.subrange(0, i as int) =~= all);
    out
}

/// Keeps the paths that lie under the prefix; all of them where no prefix
/// is given.
pub fn conditional_filter(paths: Vec<PathSegments>, prefix: Option<PathSegments>) -> (r: Vec<
    PathSegments,
>)
    ensures
        paths_view(r@) == within(paths_view(paths@), prefix_view(prefix)),
{
    let ghost all = paths_view(paths@);
    let ghost keep = |path: Seq<Seq<char>>| in_search_area(path, prefix_view(prefix));
    let mut out: Vec<PathSegments> = Vec::new();
    let mut i: usize = 0;
    assert(all.subrange(0, 0).filter(keep) =~= Seq::<Seq<Seq<char>>>::empty()) by {
        reveal(Seq::filter);
    }
    assert(paths_view(out@) =~= Seq::<Seq<Seq<char>>>::empty());
    while i < paths.len()
        invariant
            i <= paths.len(),
            all == paths_view(paths@),
            keep == |path: Seq<Seq<char>>| in_search_area(path, prefix_view(prefix)),
            paths_view(out@) == all.subrange(0, i as int).filter(keep),
        decreases paths.len() - i,
    {
        proof {
            lemma_filter_step(all, i as int, keep);
        }
        if lies_within(&paths[i], &prefix) {
            let ghost before = paths_view(out@);
            out.push(paths[i].duplicate());
            assert(paths_view(out@) =~= before.push(all[i as int]));
        }
        i += 1;
    }
    assert(all.subrange(0, i as int) =~= all);
    out
}

/// Finds the one database of a listing that lies in the search area. The
/// scan ends at the second match: with two the answer is already known.
pub fn find_ghost_db(entries: &Vec<PathSegments>, prefix: Option<PathSegments>) -> (r: Result<
    PathSegments,
    Error,
>)
    ensures
        locates(r, located(paths_view(entries@), prefix_view(prefix))),
{
    let ghost all = paths_view(entries@);
    let ghost both = |path: Seq<Seq<char>>| is_candidate(path, prefix_view(prefix));
    let mut first: Option<PathSegments> = None;
    let mut i: usize = 0;
    proof {
        lemma_found_are_candidates(all, prefix_view(prefix));
        reveal(Seq::filter);
        assert(all.subrange(0, 0).filter(both) =~= Seq::<Seq<Seq<char>>>::empty());
    }
    while i < entries.len()
        invariant
            i <= entries.len(),
            all == paths_view(entries@),
            both == |path: Seq<Seq<char>>| is_candidate(path, prefix_view(prefix)),
            within(ghost_dbs(all), prefix_view(prefix)) == all.filter(both),
            match first {
                Some(path) => all.subrange(0, i as int).filter(both) == seq![path@],
                None => all.subrange(0, i as int).filter(both).len() == 0,
            },
        decreases entries.len() - i,
    {
        proof {
            lemma_filter_step(all, i as int, both);
        }
        if is_database_in(&entries[i], &prefix) {
            if first.is_some() {
                proof {
                    lemma_filter_prefix_len(all, i as int + 1, both);
                }
                return Err(Error::MultipleGhostDb);
            }
            first = Some(entries[i].duplicate());
            assert(all.subrange(0, i as int).filter(both) =~= Seq::<Seq<Seq<char>>>::empty());
        }
        i += 1;
    }
    assert(all.subrange(0, i as int) =~= all);
    match first {
        Some(path) => Ok(path),
        None => Err(Error::GhostDbNotFound),
    }
}

/// Finds the database in the listing of an input of the sniffed kind: an
/// input that is no archive has no listing to search.
pub fn find_ghost_db_in(
    sniffed: Option<FileType>,
    entries: &Vec<PathSegments>,
    prefix: Option<PathSegments>,
) -> (r: Result<PathSegments, Error>)
    ensures
        decoder_of(sniffed).is_err() ==> r.is_err() && r->Err_0 == Error::NotTar,
        decoder_of(sniffed).is_ok() ==> locates(
            r,
            located(paths_view(entries@), prefix_view(prefix)),
        ),
{
    match try_archive(sniffed) {
        Err(e) => Err(e),
        Ok(_) => find_ghost_db(entries, prefix),
    }
}

} // verus!
