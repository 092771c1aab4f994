//! Where the database lies.

use vstd::prelude::*;

verus! {

/// What the name of the write-ahead log has after the path of the database.
pub const WAL_SUFFIX: &'static str = "-wal";

/// What the name of the index of that log has after the path of the database.
pub const SHM_SUFFIX: &'static str = "-shm";

/// The place of the write-ahead log among the files of the database.
pub const WAL_FILE: usize = 1;

/// The directory that the path of the database starts from.
#[derive(Debug, PartialEq, Eq)]
pub enum Base<P> {
    /// The data directory.
    DataDir(P),
    /// A directory of this name in the working directory.
    Named(String),
}

/// A path: a directory, and the names that lead on from it, one below the other.
#[derive(Debug, PartialEq, Eq)]
pub struct DbPath<P> {
    pub base: Base<P>,
    pub names: Vec<String>,
}

/// The path of the database: `archives/index.db` in the data directory, or in
/// `.lean-ctx` where there is no data directory.
pub fn db_path<P>(data_dir: Option<P>) -> (path: DbPath<P>)
    ensures
        match data_dir {
            Some(dir) => path.base == Base::DataDir(dir),
            None => path.base matches Base::Named(name) && name@ == ".lean-ctx"@,
        },
        path.names@.len() == 2,
        path.names@[0]@ == "archives"@,
        path.names@[1]@ == "index.db"@,
{
    let base = match data_dir {
        Some(dir) => Base::DataDir(dir),
        None => Base::Named(".lean-ctx".to_owned()),
    };
    let mut names: Vec<String> = Vec::new();
    names.push("archives".to_owned());
    names.push("index.db".to_owned());
    DbPath { base, names }
}

/// The files that make up the database, each by what follows the path of the
/// database in its name: the main file, its write-ahead log and the index of that
/// log.
pub fn db_files() -> (suffixes: Vec<String>)
    ensures
        suffixes@.len() == 3,
        suffixes@[0]@ == Seq::<char>::empty(),
        suffixes@[WAL_FILE as int]@ == WAL_SUFFIX@,
        suffixes@[2]@ == SHM_SUFFIX@,
{
    let mut suffixes: Vec<String> = Vec::new();
    suffixes.push(String::new());
    suffixes.push(WAL_SUFFIX.to_owned());
    suffixes.push(SHM_SUFFIX.to_owned());
    suffixes
}

} // verus!
