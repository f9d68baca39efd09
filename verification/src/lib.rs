//! Turning a Ghost blog export into a Zola content tree: locating the
//! database inside an archive listing, planning a confined extraction of
//! its images, and rendering each post as Markdown with TOML front matter.

use vstd::prelude::*;

pub mod archive;
pub mod data_model;
pub mod extract;
pub mod ghost;
pub mod path;
pub mod text;

pub use crate::archive::{find_ghost_db, find_ghost_db_in, find_ghost_dbs, try_archive};
pub use crate::extract::extract_archive;

verus! {

/// Why a conversion run stops.
#[derive(Debug, Clone, Copy, PartialEq, Eq, Structural)]
pub enum Error {
    /// Reading or writing failed.
    Io,
    /// The input is neither a tar stream nor a compressed one.
    NotTar,
    /// No `ghost.db` lies within the search area.
    GhostDbNotFound,
    /// More than one `ghost.db` lies within the search area.
    MultipleGhostDb,
    /// An image path did not start with the image directory.
    StripPrefix,
    /// The database could not be read.
    Sql,
    /// The front matter could not be serialised.
    Frontmatter,
}

impl Error {
    /// What went wrong, in words.
    pub fn message(&self) -> (r: &'static str)
        ensures
            r@ == match *self {
                Error::Io => "IO"@,
                Error::NotTar => "input does not appear to be a (compressed) tar file"@,
                Error::GhostDbNotFound => "input does not contain a ghost.db within search area"@,
                Error::MultipleGhostDb
                    => "input contains more than one ghost.db within search area"@,
                Error::StripPrefix => "failed to strip an image prefix"@,
                Error::Sql => "reading ghost database"@,
                Error::Frontmatter => "generating frontmatter toml"@,
            },
    {
        match self {
            Error::Io => "IO",
            Error::NotTar => "input does not appear to be a (compressed) tar file",
            Error::GhostDbNotFound => "input does not contain a ghost.db within search area",
            Error::MultipleGhostDb => "input contains more than one ghost.db within search area",
            Error::StripPrefix => "failed to strip an image prefix",
            Error::Sql => "reading ghost database",
            Error::Frontmatter => "generating frontmatter toml",
        }
    }
}

/// How loudly the number of archive entries seen so far is reported.
#[derive(Debug, Clone, Copy, PartialEq, Eq, Structural)]
pub enum Progress {
    Silent,
    Trace,
    Info,
}

/// The report that is due after `idx` archive entries.
pub open spec fn progress_at(idx: int) -> Progress {
    if idx > 0 && idx % 0x8000 == 0 {
        Progress::Info
    } else if idx > 0 && idx % 0x2000 == 0 {
        Progress::Trace
    } else {
        Progress::Silent
    }
}

/// Decides whether progress is reported at entry `idx`: at every 32768th
/// entry as information, at every other 8192th as a trace, else not at all.
pub fn log_progress(idx: usize) -> (level: Progress)
    ensures
        level == progress_at(idx as int),
{
    let wide: u64 = idx as u64;
    assert((wide & 0x7fff == 0) <==> (wide % 0x8000 == 0)) by (bit_vector);
    assert((wide & 0x1fff == 0) <==> (wide % 0x2000 == 0)) by (bit_vector);
    if wide > 0 {
        if wide & 0x7fff == 0 {
            Progress::Info
        } else if wide & 0x1fff == 0 {
            Progress::Trace
        } else {
            Progress::Silent
        }
    } else {
        Progress::Silent
    }
}

} // verus!
