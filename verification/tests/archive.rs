use ghost2zola::archive::{conditional_filter, is_database_in, Decoder, FileType};
use ghost2zola::{find_ghost_db, find_ghost_db_in, find_ghost_dbs, try_archive};
use ghost2zola::path::PathSegments;
use ghost2zola::{log_progress, Error, Progress};

fn archive_path(text: &str) -> PathSegments {
    let segments = std::path::Path::new(text)
        .components()
        .map(|part| part.as_os_str().to_string_lossy().into_owned())
        .collect();
    PathSegments::from_segments(segments).unwrap()
}

fn listing(paths: &[&str]) -> Vec<PathSegments> {
    paths.iter().map(|text| archive_path(text)).collect()
}

fn shown(path: &PathSegments) -> String {
    path.segments().join("/")
}

#[test]
fn media_types_are_classified() {
    assert_eq!(FileType::from_media_type("application/vnd.sqlite3"), Some(FileType::Sqlite3));
    assert_eq!(FileType::from_media_type("application/x-tar"), Some(FileType::Tar));
    assert_eq!(FileType::from_media_type("application/gzip"), Some(FileType::TarGz));
    assert_eq!(FileType::from_media_type("application/x-bzip"), Some(FileType::TarBz2));
    assert_eq!(FileType::from_media_type("text/plain"), None);
    assert_eq!(FileType::from_media_type(""), None);
}

#[test]
fn only_archives_have_a_decoder() {
    assert_eq!(try_archive(Some(FileType::Tar)), Ok(Decoder::Plain));
    assert_eq!(try_archive(Some(FileType::TarGz)), Ok(Decoder::Gzip));
    assert_eq!(try_archive(Some(FileType::TarBz2)), Ok(Decoder::Bzip2));
    assert_eq!(try_archive(Some(FileType::Sqlite3)), Err(Error::NotTar));
    assert_eq!(try_archive(None), Err(Error::NotTar));
}

#[test]
fn single_database_is_located() {
    let entries = listing(&["blog", "blog/data", "blog/data/ghost.db", "blog/images/a.png"]);
    let found = find_ghost_db(&entries, None).unwrap();
    assert_eq!(shown(&found), "blog/data/ghost.db");
}

#[test]
fn missing_database_is_reported() {
    let entries = listing(&["blog/data/ghost.db.bak", "blog/ghost.db/file", "ghost.dbx"]);
    assert_eq!(find_ghost_db(&entries, None).unwrap_err(), Error::GhostDbNotFound);
    assert_eq!(find_ghost_db(&Vec::new(), None).unwrap_err(), Error::GhostDbNotFound);
}

#[test]
fn two_databases_are_ambiguous() {
    let entries = listing(&["a/data/ghost.db", "x", "b/data/ghost.db", "c/data/ghost.db"]);
    assert_eq!(find_ghost_db(&entries, None).unwrap_err(), Error::MultipleGhostDb);
}

#[test]
fn prefix_narrows_the_search() {
    let entries = listing(&["a/data/ghost.db", "b/data/ghost.db", "ab/data/ghost.db"]);
    let found = find_ghost_db(&entries, Some(archive_path("b"))).unwrap();
    assert_eq!(shown(&found), "b/data/ghost.db");
    let found = find_ghost_db(&entries, Some(archive_path("a"))).unwrap();
    assert_eq!(shown(&found), "a/data/ghost.db");
    assert_eq!(
        find_ghost_db(&entries, Some(archive_path("c"))).unwrap_err(),
        Error::GhostDbNotFound
    );
    assert_eq!(
        find_ghost_db(&entries, Some(archive_path(""))).unwrap_err(),
        Error::MultipleGhostDb
    );
}

#[test]
fn all_databases_are_listed_in_order() {
    let entries = listing(&["a/data/ghost.db", "a/images/x.png", "ghost.db", "b/ghost.db"]);
    let found: Vec<String> = find_ghost_dbs(&entries).iter().map(shown).collect();
    assert_eq!(found, vec!["a/data/ghost.db", "ghost.db", "b/ghost.db"]);
}

#[test]
fn filter_keeps_what_lies_under_the_prefix() {
    let paths = listing(&["a/x", "b/y", "a/z", "ab"]);
    let kept: Vec<String> =
        conditional_filter(paths, Some(archive_path("a"))).iter().map(shown).collect();
    assert_eq!(kept, vec!["a/x", "a/z"]);
    let paths = listing(&["a/x", "b/y"]);
    let kept: Vec<String> = conditional_filter(paths, None).iter().map(shown).collect();
    assert_eq!(kept, vec!["a/x", "b/y"]);
}

#[test]
fn no_archive_has_no_database() {
    let entries = listing(&["blog/data/ghost.db"]);
    assert_eq!(
        find_ghost_db_in(Some(FileType::Sqlite3), &entries, None).unwrap_err(),
        Error::NotTar
    );
    assert_eq!(find_ghost_db_in(None, &entries, None).unwrap_err(), Error::NotTar);
    let found = find_ghost_db_in(Some(FileType::TarGz), &entries, None).unwrap();
    assert_eq!(shown(&found), "blog/data/ghost.db");
    assert_eq!(
        find_ghost_db_in(Some(FileType::Tar), &Vec::new(), None).unwrap_err(),
        Error::GhostDbNotFound
    );
}

#[test]
fn progress_is_reported_now_and_then() {
    assert_eq!(log_progress(0), Progress::Silent);
    assert_eq!(log_progress(1), Progress::Silent);
    assert_eq!(log_progress(0x1fff), Progress::Silent);
    assert_eq!(log_progress(0x2000), Progress::Trace);
    assert_eq!(log_progress(0x6000), Progress::Trace);
    assert_eq!(log_progress(0x8000), Progress::Info);
    assert_eq!(log_progress(0x18000), Progress::Info);
}

#[test]
fn errors_say_what_went_wrong() {
    assert_eq!(Error::Io.message(), "IO");
    assert_eq!(Error::NotTar.message(), "input does not appear to be a (compressed) tar file");
    assert_eq!(
        Error::GhostDbNotFound.message(),
        "input does not contain a ghost.db within search area"
    );
    assert_eq!(
        Error::MultipleGhostDb.message(),
        "input contains more than one ghost.db within search area"
    );
    assert_eq!(Error::StripPrefix.message(), "failed to strip an image prefix");
    assert_eq!(Error::Sql.message(), "reading ghost database");
    assert_eq!(Error::Frontmatter.message(), "generating frontmatter toml");
}

#[test]
fn databases_are_told_entry_by_entry() {
    assert!(is_database_in(&archive_path("a/data/ghost.db"), &None));
    assert!(is_database_in(&archive_path("ghost.db"), &None));
    assert!(!is_database_in(&archive_path("a/data/ghost.db.bak"), &None));
    assert!(!is_database_in(&archive_path("a/ghost.db/x"), &None));
    assert!(is_database_in(&archive_path("a/data/ghost.db"), &Some(archive_path("a"))));
    assert!(!is_database_in(&archive_path("a/data/ghost.db"), &Some(archive_path("b"))));
    assert!(!is_database_in(&archive_path("ab/ghost.db"), &Some(archive_path("a"))));
}
