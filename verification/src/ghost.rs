//! The shape of a Ghost JSON export.
//!
//! <https://ghost.org/docs/api/v3/migration/developers/>
//!
//! An export is either one database or a wrapper around a list of them;
//! `Top` holds either, and `Top::dbs` hands the databases out the same way
//! for both.

use vstd::prelude::*;

verus! {

/// A JSON value of `serde_json`, carried through as it is.
#[verifier::external_type_specification]
#[verifier::external_body]
pub struct ExJsonValue(serde_json::Value);

/// An export: databases in a wrapper, or one database alone.
#[derive(Debug, PartialEq, Eq, Clone)]
pub enum Top {
    Wrapper(Wrapper),
    Db(Db),
}

#[derive(Debug, PartialEq, Eq, Clone)]
pub struct Wrapper {
    pub db: Vec<Db>,
}

#[derive(Debug, PartialEq, Eq, Clone)]
pub struct Db {
    pub meta: Meta,
    pub data: Data,
}

#[derive(Debug, PartialEq, Eq, Hash, Clone)]
pub struct Meta {
    /// When the export was made, in milliseconds since 1970 in UTC.
    pub exported_on: i64,
    pub version: String,
}

#[derive(Debug, PartialEq, Eq, Clone)]
pub struct Data {
    pub posts: Vec<serde_json::Value>,
    pub tags: Vec<serde_json::Value>,
    pub users: Vec<User>,
    pub posts_tags: Option<Vec<serde_json::Value>>,
    pub posts_authors: Option<Vec<serde_json::Value>>,
    pub roles_authors: Option<Vec<serde_json::Value>>,
}

#[derive(Debug, PartialEq, Eq, Hash, Clone)]
pub struct User {
    pub id: u64,
    pub name: String,
    pub email: String,
}

#[derive(Debug, PartialEq, Eq, Clone)]
pub struct Post {
    pub title: String,
    /// The post's document, as the JSON text that the export holds.
    pub mobiledoc: Option<String>,
    pub status: Option<String>,
    /// When the post came out, in milliseconds since 1970 in UTC.
    pub published_at: Option<i64>,
}

impl Top {
    /// The databases of the export, in order: the one, or those of the
    /// wrapper.
    pub open spec fn databases(&self) -> Seq<Db> {
        match self {
            Top::Db(db) => seq![*db],
            Top::Wrapper(wrapper) => wrapper.db@,
        }
    }

    /// The databases of the export, whichever of its two shapes it has.
    pub fn dbs(&self) -> (r: Vec<&Db>)
        ensures
            r@.len() == self.databases().len(),
            forall|i: int| 0 <= i < r@.len() ==> *#[trigger] r@[i] == self.databases()[i],
    {
        let mut out: Vec<&Db> = Vec::new();
        match self {
            Top::Db(db) => {
                out.push(db);
            },
            Top::Wrapper(wrapper) => {
                let mut i: usize = 0;
                while i < wrapper.db.len()
                    invariant
                        i <= wrapper.db@.len(),
                        out@.len() == i,
                        forall|j: int| 0 <= j < i ==> *#[trigger] out@[j] == wrapper.db@[j],
                    decreases wrapper.db.len() - i,
                {
                    out.push(&wrapper.db[i]);
                    i += 1;
                }
            },
        }
        out
    }
}

} // verus!
