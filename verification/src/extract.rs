//! Planning an extraction: what becomes of each entry of the archive,
//! where each post is written, and which index files the site still lacks.

use crate::archive::{
    decoder_of, find_ghost_db_in, lemma_located_is_one_entry, located, paths_view, prefix_view,
    FileType,
};
use crate::data_model::{relative_path_of, texts_view, FrontMatter, Post, PostRow};
use crate::path::{
    current_segment, dot_free, is_absolute, is_markdown, lemma_resolve_dots_dot_free,
    lemma_resolve_dots_of_dot_free, parent_of, parent_segment, resolve_dots, root_segment,
    valid_segment, PathSegments,
};
use crate::Error;
use vstd::prelude::*;

verus! {

/// One record of the archive, as far as the plan reads it.
#[derive(Debug)]
pub struct ArchiveEntry {
    pub path: PathSegments,
    pub is_directory: bool,
}

/// What is done with one entry of the archive.
#[derive(Debug)]
pub enum EntryAction {
    /// The entry is the database: its bytes are copied into the private
    /// temporary file.
    CopyDatabase,
    /// A directory or a Markdown file: nothing is done.
    Skip,
    /// An image: it is unpacked to this path.
    Unpack(PathSegments),
    /// An image whose path leaves the extraction root: a warning names
    /// this path below the image directory, and nothing is written.
    Reject(PathSegments),
    /// Anything else: nothing is done.
    Ignore,
}

/// An action, with paths by their views.
pub enum PlannedAction {
    CopyDatabase,
    Skip,
    Unpack(Seq<Seq<char>>),
    Reject(Seq<Seq<char>>),
    Ignore,
}

impl View for EntryAction {
    type V = PlannedAction;

    open spec fn view(&self) -> PlannedAction {
        match self {
            EntryAction::CopyDatabase => PlannedAction::CopyDatabase,
            EntryAction::Skip => PlannedAction::Skip,
            EntryAction::Unpack(to) => PlannedAction::Unpack(to@),
            EntryAction::Reject(subpath) => PlannedAction::Reject(subpath@),
            EntryAction::Ignore => PlannedAction::Ignore,
        }
    }
}

/// Where the images of a blog lie in the archive: in `images`, beside the
/// directory that holds the database. A database with fewer than two
/// directories above it has no images.
pub open spec fn images_base_of(db_path: Seq<Seq<char>>) -> Option<Seq<Seq<char>>> {
    match parent_of(db_path) {
        Some(data) => match parent_of(data) {
            Some(blog) => Some(blog.push("images"@)),
            None => None,
        },
        None => None,
    }
}

/// Whether the entry is one of the blog's images: neither the database,
/// nor a directory, nor a Markdown file, and below the image directory.
pub open spec fn is_image(
    path: Seq<Seq<char>>,
    is_directory: bool,
    db_path: Seq<Seq<char>>,
) -> bool {
    path != db_path && !is_directory && !is_markdown(path) && match images_base_of(db_path) {
        Some(base) => base.is_prefix_of(path),
        None => false,
    }
}

/// Where an image at `subpath` below the image directory would be
/// written: below the root, with the dots of the joined path resolved.
pub open spec fn candidate_of(root: Seq<Seq<char>>, subpath: Seq<Seq<char>>) -> Seq<Seq<char>> {
    resolve_dots(root + subpath)
}

/// What is done with an entry, given where the database lies and where
/// the site is written. An image is unpacked only where the path it would
/// be written to, with all its dots resolved, still starts with the root.
pub open spec fn action_of(
    path: Seq<Seq<char>>,
    is_directory: bool,
    db_path: Seq<Seq<char>>,
    root: Seq<Seq<char>>,
) -> PlannedAction {
    if path == db_path {
        PlannedAction::CopyDatabase
    } else if is_directory || is_markdown(path) {
        PlannedAction::Skip
    } else if is_image(path, is_directory, db_path) {
        let subpath = path.skip(images_base_of(db_path)->Some_0.len() as int);
        let candidate = candidate_of(root, subpath);
        if root.is_prefix_of(candidate) {
            PlannedAction::Unpack(candidate)
        } else {
            PlannedAction::Reject(subpath)
        }
    } else {
        PlannedAction::Ignore
    }
}

/// No image is ever written outside the extraction root: the path that an
/// entry is unpacked to starts with the root and holds no `.` and no `..`
/// that could lead out of it again, whatever the entry's own path holds.
pub proof fn lemma_unpack_stays_under_root(
    path: Seq<Seq<char>>,
    is_directory: bool,
    db_path: Seq<Seq<char>>,
    root: Seq<Seq<char>>,
)
    ensures
        match action_of(path, is_directory, db_path, root) {
            PlannedAction::Unpack(to) => root.is_prefix_of(to) && dot_free(to),
            _ => true,
        },
{
    if is_image(path, is_directory, db_path) {
        let subpath = path.skip(images_base_of(db_path)->Some_0.len() as int);
        lemma_resolve_dots_dot_free(root + subpath);
    }
}

/// An image is mirrored below the root: where neither the root nor the
/// image's path below the image directory holds a `.` or a `..`, the image
/// is unpacked to the root followed by that path, and never rejected.
pub proof fn lemma_image_is_mirrored(
    path: Seq<Seq<char>>,
    is_directory: bool,
    db_path: Seq<Seq<char>>,
    root: Seq<Seq<char>>,
)
    requires
        is_image(path, is_directory, db_path),
        dot_free(root),
        dot_free(path.skip(images_base_of(db_path)->Some_0.len() as int)),
    ensures
        action_of(path, is_directory, db_path, root) == PlannedAction::Unpack(
            root + path.skip(images_base_of(db_path)->Some_0.len() as int),
        ),
{
    let subpath = path.skip(images_base_of(db_path)->Some_0.len() as int);
    let joined = root + subpath;
    assert forall|i: int| 0 <= i < joined.len() implies #[trigger] joined[i] != current_segment()
        && joined[i] != parent_segment() by {
        if i < root.len() {
            assert(joined[i] == root[i]);
        } else {
            assert(joined[i] == subpath[i - root.len()]);
        }
    }
    lemma_resolve_dots_of_dot_free(joined);
    assert(joined.subrange(0, root.len() as int) =~= root);
}

/// A plan writes no image outside the extraction root: every path that
/// it unpacks an entry to starts with the root and holds no `.` and no
/// `..`. Every entry has its action in the plan, also those that come
/// after a rejected one.
pub proof fn lemma_plan_stays_under_root(
    plan: PartialExtraction,
    entries: Seq<ArchiveEntry>,
    prefix: Option<Seq<Seq<char>>>,
    root: Seq<Seq<char>>,
)
    requires
        plan.plans(entries, prefix, root),
    ensures
        plan.actions@.len() == entries.len(),
        forall|i: int|
            0 <= i < entries.len() ==> match (#[trigger] plan.actions@[i])@ {
                PlannedAction::Unpack(to) => root.is_prefix_of(to) && dot_free(to),
                _ => true,
            },
{
    assert forall|i: int| 0 <= i < entries.len() implies match (#[trigger] plan.actions@[i])@ {
        PlannedAction::Unpack(to) => root.is_prefix_of(to) && dot_free(to),
        _ => true,
    } by {
        lemma_unpack_stays_under_root(
            entries[i].path@,
            entries[i].is_directory,
            plan.database@,
            root,
        );
    }
}

/// A plan copies the database out of exactly one entry of the archive.
pub proof fn lemma_database_copied_once(
    plan: PartialExtraction,
    entries: Seq<ArchiveEntry>,
    prefix: Option<Seq<Seq<char>>>,
    root: Seq<Seq<char>>,
)
    requires
        plan.plans(entries, prefix, root),
    ensures
        exists|i: int|
            0 <= i < entries.len() && (#[trigger] plan.actions@[i])@ == PlannedAction::CopyDatabase,
        forall|i: int, j: int|
            0 <= i < j < entries.len() ==> !((#[trigger] plan.actions@[i])@
                == PlannedAction::CopyDatabase && (#[trigger] plan.actions@[j])@
                == PlannedAction::CopyDatabase),
{
    let paths = entry_paths(entries);
    lemma_located_is_one_entry(paths, prefix, plan.database@);
    let i = choose|i: int| 0 <= i < paths.len() && #[trigger] paths[i] == plan.database@;
    assert(entries[i].path@ == plan.database@);
    assert(plan.actions@[i]@ == PlannedAction::CopyDatabase);
    assert forall|i: int, j: int| 0 <= i < j < entries.len() implies !((
    #[trigger] plan.actions@[i])@ == PlannedAction::CopyDatabase && (#[trigger] plan.actions@[j])@
        == PlannedAction::CopyDatabase) by {
        if plan.actions@[i]@ == PlannedAction::CopyDatabase && plan.actions@[j]@
            == PlannedAction::CopyDatabase {
            assert(paths[i] == plan.database@);
            assert(paths[j] == plan.database@);
        }
    }
}

/// The paths that the actions unpack an entry to, in order.
pub open spec fn unpacked(actions: Seq<EntryAction>) -> Seq<Seq<Seq<char>>>
    decreases actions.len(),
{
    if actions.len() == 0 {
        Seq::empty()
    } else {
        let before = unpacked(actions.drop_last());
        match actions.last() {
            EntryAction::Unpack(to) => before.push(to@),
            _ => before,
        }
    }
}

/// The image directory that belongs to a database.
pub fn images_base(db_path: &PathSegments) -> (r: Option<PathSegments>)
    ensures
        prefix_view(r) == images_base_of(db_path@),
{
    let data = match db_path.parent() {
        Some(data) => data,
        None => {
            return None;
        },
    };
    let blog = match data.parent() {
        Some(blog) => blog,
        None => {
            return None;
        },
    };
    proof {
        reveal_strlit("images");
        let name = "images"@;
        assert(name.len() == 6);
        assert(name[0] == 'i');
        assert(forall|i: int| 0 <= i < name.len() ==> name[i] != '/');
        assert(!name.contains('/'));
        assert(name != root_segment());
    }
    Some(blog.child("images"))
}

/// Decides what is done with one entry. The decision is `action_of`; it
/// fails only for an image, and only where the path that the image would
/// be written to cannot be resolved.
pub fn entry_action(entry: &ArchiveEntry, db_path: &PathSegments, root: &PathSegments) -> (r:
    Result<EntryAction, Error>)
    requires
        is_absolute(root@),
    ensures
        match r {
            Ok(action) => action@ == action_of(entry.path@, entry.is_directory, db_path@, root@),
            Err(e) => e == Error::Io && is_image(entry.path@, entry.is_directory, db_path@),
        },
{
    if entry.path.same_as(db_path) {
        return Ok(EntryAction::CopyDatabase);
    }
    if entry.is_directory || entry.path.is_markdown() {
        return Ok(EntryAction::Skip);
    }
    let base = match images_base(db_path) {
        Some(base) => base,
        None => {
            return Ok(EntryAction::Ignore);
        },
    };
    let subpath = match entry.path.strip_prefix(&base) {
        Some(subpath) => subpath,
        None => {
            return Ok(EntryAction::Ignore);
        },
    };
    proof {
        assert(base@.len() > 0);
    }
    let joined = root.join(&subpath);
    assert(joined@[0] == root@[0]);
    match joined.absolutize() {
        None => Err(Error::Io),
        Some(candidate) => match root.confine(candidate) {
            Some(to) => Ok(EntryAction::Unpack(to)),
            None => Ok(EntryAction::Reject(subpath)),
        },
    }
}

/// The paths of a list of entries.
pub open spec fn entry_paths(entries: Seq<ArchiveEntry>) -> Seq<Seq<Seq<char>>> {
    Seq::new(entries.len(), |i: int| entries[i].path@)
}

/// The located database and what is done with each entry of the archive.
#[derive(Debug)]
pub struct PartialExtraction {
    /// The path of the database inside the archive.
    pub database: PathSegments,
    /// One action for each entry, in the order of the archive.
    pub actions: Vec<EntryAction>,
}

impl PartialExtraction {
    /// Whether this is the plan for these entries and this root: the
    /// database is the located one, and every entry has its action.
    pub open spec fn plans(
        &self,
        entries: Seq<ArchiveEntry>,
        prefix: Option<Seq<Seq<char>>>,
        root: Seq<Seq<char>>,
    ) -> bool {
        &&& located(entry_paths(entries), prefix) == Ok::<Seq<Seq<char>>, Error>(self.database@)
        &&& self.actions@.len() == entries.len()
        &&& forall|i: int|
            0 <= i < entries.len() ==> (#[trigger] self.actions@[i])@ == action_of(
                entries[i].path@,
                entries[i].is_directory,
                self.database@,
                root,
            )
    }
}

/// When no plan is made, and why: the input is no archive; or the
/// database is not located; or, with the database located, the place of
/// some image could not be resolved.
pub open spec fn plan_fails_with(
    e: Error,
    sniffed: Option<FileType>,
    entries: Seq<ArchiveEntry>,
    prefix: Option<Seq<Seq<char>>>,
) -> bool {
    if decoder_of(sniffed).is_err() {
        e == Error::NotTar
    } else {
        match located(entry_paths(entries), prefix) {
            Ok(db_path) => e == Error::Io && exists|i: int|
                0 <= i < entries.len() && #[trigger] is_image(
                    entries[i].path@,
                    entries[i].is_directory,
                    db_path,
                ),
            Err(reason) => e == reason,
        }
    }
}

fn paths_of(entries: &Vec<ArchiveEntry>) -> (r: Vec<PathSegments>)
    ensures
        paths_view(r@) == entry_paths(entries@),
{
    let mut out: Vec<PathSegments> = Vec::new();
    let mut i: usize = 0;
    while i < entries.len()
        invariant
            i <= entries.len(),
            out@.len() == i,
            forall|j: int| 0 <= j < i ==> out@[j]@ == entries@[j].path@,
        decreases entries.len() - i,
    {
        out.push(entries[i].path.duplicate());
        i += 1;
    }
    assert(paths_view(out@) =~= entry_paths(entries@));
    out
}

/// Plans the extraction of the database and the images from an archive of
/// the sniffed kind with these entries, for a site rooted at `root`.
///
/// With the database at `a/b/c/data/ghost.db`, the images lie in
/// `a/b/c/images/yyyy/mm/` and go to `root/yyyy/mm/`. An entry that would
/// be written outside the root is rejected, and the plan goes on with the
/// entry after it.
pub fn extract_images_and_db(
    sniffed: Option<FileType>,
    entries: &Vec<ArchiveEntry>,
    prefix: Option<PathSegments>,
    root: &PathSegments,
) -> (r: Result<PartialExtraction, Error>)
    requires
        is_absolute(root@),
    ensures
        match r {
            Ok(plan) => decoder_of(sniffed).is_ok() && plan.plans(
                entries@,
                prefix_view(prefix),
                root@,
            ),
            Err(e) => plan_fails_with(e, sniffed, entries@, prefix_view(prefix)),
        },
{
    let paths = paths_of(entries);
    let ghost area = prefix_view(prefix);
    let database = match find_ghost_db_in(sniffed, &paths, prefix) {
        Ok(database) => database,
        Err(e) => {
            assert(plan_fails_with(e, sniffed, entries@, area));
            return Err(e);
        },
    };
    let mut actions: Vec<EntryAction> = Vec::new();
    let mut i: usize = 0;
    while i < entries.len()
        invariant
            i <= entries.len(),
            is_absolute(root@),
            decoder_of(sniffed).is_ok(),
            area == prefix_view(prefix),
            located(entry_paths(entries@), area) == Ok::<Seq<Seq<char>>, Error>(database@),
            actions@.len() == i,
            forall|j: int|
                0 <= j < i ==> (#[trigger] actions@[j])@ == action_of(
                    entries@[j].path@,
                    entries@[j].is_directory,
                    database@,
                    root@,
                ),
        decreases entries.len() - i,
    {
        match entry_action(&entries[i], &database, root) {
            Ok(action) => {
                actions.push(action);
            },
            Err(e) => {
                assert(is_image(
                    entries@[i as int].path@,
                    entries@[i as int].is_directory,
                    database@,
                ));
                assert(located(entry_paths(entries@), area)->Ok_0 == database@);
                assert(plan_fails_with(e, sniffed, entries@, area));
                return Err(e);
            },
        }
        i += 1;
    }
    Ok(PartialExtraction { database, actions })
}

/// One post as it is written: where, with which front matter, and the
/// post itself.
#[derive(Debug)]
pub struct SiteFile {
    /// The segments of the path below the site's root.
    pub relative_path: Vec<String>,
    pub front_matter: FrontMatter,
    pub post: Post,
}

impl SiteFile {
    /// Whether this is the file of the post that the row gives: the post
    /// is made of the row, the front matter is the post's, and the path is
    /// that of the post's date and of a slug that the post may have.
    pub open spec fn renders(&self, row: &PostRow) -> bool {
        &&& self.post.is_from(row)
        &&& self.post.has_front_matter(&self.front_matter)
        &&& exists|slug: Seq<char>| #[trigger]
            self.post.has_slug(slug) && texts_view(self.relative_path@) == relative_path_of(
                self.post.date,
                slug,
            )
    }
}

/// Whether these are the files of these rows, one for each, in order.
pub open spec fn files_render(files: Seq<SiteFile>, rows: Seq<PostRow>) -> bool {
    files.len() == rows.len() && forall|i: int|
        0 <= i < rows.len() ==> (#[trigger] files[i]).renders(&rows[i])
}

impl PartialExtraction {
    /// Where the images of the blog are written, in the order of their
    /// entries.
    pub fn images(&self) -> (r: Vec<PathSegments>)
        ensures
            paths_view(r@) == unpacked(self.actions@),
    {
        let mut out: Vec<PathSegments> = Vec::new();
        let mut i: usize = 0;
        assert(self.actions@.subrange(0, 0) =~= Seq::<EntryAction>::empty());
        assert(paths_view(out@) =~= unpacked(self.actions@.subrange(0, 0)));
        while i < self.actions.len()
            invariant
                i <= self.actions.len(),
                paths_view(out@) == unpacked(self.actions@.subrange(0, i as int)),
            decreases self.actions.len() - i,
        {
            proof {
                let longer = self.actions@.subrange(0, i as int + 1);
                assert(longer.drop_last() =~= self.actions@.subrange(0, i as int));
                assert(longer.last() == self.actions@[i as int]);
            }
            match &self.actions[i] {
                EntryAction::Unpack(to) => {
                    let ghost before = paths_view(out@);
                    out.push(to.duplicate());
                    assert(paths_view(out@) =~= before.push(to@));
                },
                _ => {},
            }
            i += 1;
        }
        assert(self.actions@.subrange(0, i as int) =~= self.actions@);
        out
    }

    /// Plans the files of the posts that the extracted database holds:
    /// one for every row, in the order of the rows. Their number is the
    /// number of posts that are written.
    pub fn extract_database(&self, rows: &Vec<PostRow>) -> (r: Vec<SiteFile>)
        ensures
            files_render(r@, rows@),
    {
        let mut out: Vec<SiteFile> = Vec::new();
        let mut i: usize = 0;
        while i < rows.len()
            invariant
                i <= rows.len(),
                out@.len() == i,
                forall|j: int| 0 <= j < i ==> (#[trigger] out@[j]).renders(&rows@[j]),
            decreases rows.len() - i,
        {
            let post = Post::from_row(&rows[i]);
            let relative_path = post.relative_path();
            let front_matter = post.front_matter();
            let file = SiteFile { relative_path, front_matter, post };
            assert(file.renders(&rows@[i as int]));
            out.push(file);
            i += 1;
        }
        out
    }
}

/// The plan of a whole conversion.
#[derive(Debug)]
pub struct Site {
    pub extraction: PartialExtraction,
    pub files: Vec<SiteFile>,
}

/// Plans the conversion of an archive into a site below `root`, from the
/// archive's listing and the rows of its database.
///
/// The images that lie beside the database go below the root, by year and
/// month; none leaves the root. Each post becomes one file,
/// `yyyy/mm/dd/slug.md` or `undated/slug.md`, with its front matter.
pub fn extract_archive(
    sniffed: Option<FileType>,
    entries: &Vec<ArchiveEntry>,
    prefix: Option<PathSegments>,
    root: &PathSegments,
    rows: &Vec<PostRow>,
) -> (r: Result<Site, Error>)
    requires
        is_absolute(root@),
    ensures
        match r {
            Ok(site) => decoder_of(sniffed).is_ok() && site.extraction.plans(
                entries@,
                prefix_view(prefix),
                root@,
            ) && files_render(site.files@, rows@),
            Err(e) => plan_fails_with(e, sniffed, entries@, prefix_view(prefix)),
        },
{
    match extract_images_and_db(sniffed, entries, prefix, root) {
        Ok(extraction) => {
            let files = extraction.extract_database(rows);
            Ok(Site { extraction, files })
        },
        Err(e) => Err(e),
    }
}

/// The two texts that an index file is seeded from.
#[derive(Debug, Clone, Copy, PartialEq, Eq, Structural)]
pub enum IndexTemplate {
    /// For the site's root.
    Root,
    /// For every directory below it.
    Branch,
}

/// A directory of the site: its path below the root, which is empty for
/// the root itself, and whether it holds an `_index.md` already.
#[derive(Debug)]
pub struct Directory {
    pub path: PathSegments,
    pub has_index: bool,
}

/// An index file that is to be created.
#[derive(Debug)]
pub struct IndexFile {
    /// Its path below the site's root.
    pub path: PathSegments,
    pub template: IndexTemplate,
}

/// The index file of the directory at `directory`.
pub open spec fn index_of(directory: Seq<Seq<char>>) -> (Seq<Seq<char>>, IndexTemplate) {
    (
        directory.push("_index.md"@),
        if directory.len() == 0 {
            IndexTemplate::Root
        } else {
            IndexTemplate::Branch
        },
    )
}

/// The index files of the directories that have none, in the order of the
/// directories.
pub open spec fn missing_indices(directories: Seq<Directory>) -> Seq<
    (Seq<Seq<char>>, IndexTemplate),
>
    decreases directories.len(),
{
    if directories.len() == 0 {
        Seq::empty()
    } else {
        let before = missing_indices(directories.drop_last());
        let last = directories.last();
        if last.has_index {
            before
        } else {
            before.push(index_of(last.path@))
        }
    }
}

/// The views of a list of index files.
pub open spec fn index_files_view(files: Seq<IndexFile>) -> Seq<(Seq<Seq<char>>, IndexTemplate)> {
    Seq::new(files.len(), |i: int| (files[i].path@, files[i].template))
}

/// Names the index files that the site still lacks: one for every
/// directory without an `_index.md`, seeded from the root's template in
/// the root and from the other everywhere else. A directory that has its
/// index keeps it. The number of files named is the number created.
pub fn ensure_indices(directories: &Vec<Directory>) -> (r: Vec<IndexFile>)
    ensures
        index_files_view(r@) == missing_indices(directories@),
{
    proof {
        reveal_strlit("_index.md");
        let name = "_index.md"@;
        assert(name.len() == 9);
        assert(name[0] == '_');
        assert(forall|i: int| 0 <= i < name.len() ==> name[i] != '/');
        assert(!name.contains('/'));
        assert(name != root_segment());
    }
    let mut out: Vec<IndexFile> = Vec::new();
    let mut i: usize = 0;
    assert(directories@.subrange(0, 0) =~= Seq::<Directory>::empty());
    assert(index_files_view(out@) =~= missing_indices(directories@.subrange(0, 0)));
    while i < directories.len()
        invariant
            i <= directories.len(),
            valid_segment("_index.md"@),
            "_index.md"@ != root_segment(),
            index_files_view(out@) == missing_indices(directories@.subrange(0, i as int)),
        decreases directories.len() - i,
    {
        let directory = &directories[i];
        proof {
            let longer = directories@.subrange(0, i as int + 1);
            assert(longer.drop_last() =~= directories@.subrange(0, i as int));
            assert(longer.last() == directories@[i as int]);
        }
        if !directory.has_index {
            let template = if directory.path.len() == 0 {
                IndexTemplate::Root
            } else {
                IndexTemplate::Branch
            };
            let ghost before = index_files_view(out@);
            out.push(IndexFile { path: directory.path.child("_index.md"), template });
            assert(index_files_view(out@) =~= before.push(index_of(directory.path@)));
        }
        i += 1;
    }
    assert(directories@.subrange(0, i as int) =~= directories@);
    out
}

} // verus!
