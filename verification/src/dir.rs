//! The directory that holds the local migrations: what is checked before it
//! is read, and the order in which its entries are loaded.

use vstd::prelude::*;
use vstd::string::*;
use vstd::seq_lib::{to_multiset_build, to_multiset_insert};
use crate::text::{
    name_lt, str_lt, joined, texts, lemma_name_lt_transitive, lemma_name_lt_trichotomy,
};

verus! {

/// Where the migrations are kept where nothing else is asked for.
pub const DEFAULT_MIGRATIONS_DIR: &'static str = "./db/migrations";

/// The directory of the local migrations.
#[derive(Debug, PartialEq, Eq)]
pub struct MigrationsDir {
    pub dir: String,
}

/// Why the directory of the migrations cannot be used.
#[derive(Debug, PartialEq, Eq)]
pub enum DirError {
    /// The directory does not exist where it is to be read.
    Missing(String),
    /// The directory exists where it is to be created.
    AlreadyExists(String),
}

impl DirError {
    /// The message that reports the error.
    pub fn message(&self) -> (text: String)
        ensures
            text@ == match self {
                DirError::Missing(dir) => "migrations directory does not exist: "@ + dir@
                    + ", use `crude init` to create it"@,
                DirError::AlreadyExists(dir) => "migrations directory already exists: "@ + dir@,
            },
    {
        match self {
            DirError::Missing(dir) => {
                let mut text = joined("migrations directory does not exist: ", dir.as_str());
                text.append(", use `crude init` to create it");
                text
            },
            DirError::AlreadyExists(dir) => joined(
                "migrations directory already exists: ",
                dir.as_str(),
            ),
        }
    }
}

/// Whether no name of `s` sorts before a name that stands before it.
pub open spec fn in_order(s: Seq<Seq<char>>) -> bool {
    forall|i: int, j: int| 0 <= i < j < s.len() ==> !name_lt(#[trigger] s[j], #[trigger] s[i])
}

/// The names in ascending order; names that are equal keep their order.
pub fn sort_names(names: &Vec<String>) -> (sorted: Vec<String>)
    ensures
        in_order(texts(sorted@)),
        texts(sorted@).to_multiset() == texts(names@).to_multiset(),
{
    let mut sorted: Vec<String> = Vec::new();
    let mut i: usize = 0;
    assert(texts(sorted@) =~= texts(names@.take(0)));
    while i < names.len()
        invariant
            i <= names@.len(),
            in_order(texts(sorted@)),
            texts(sorted@).to_multiset() == texts(names@.take(i as int)).to_multiset(),
        decreases names@.len() - i,
    {
        let name = names[i].clone();
        let ghost before = texts(sorted@);
        let mut at: usize = 0;
        while at < sorted.len() && !str_lt(name.as_str(), sorted[at].as_str())
            invariant
                at <= sorted@.len(),
                before == texts(sorted@),
                forall|k: int| 0 <= k < at ==> !name_lt(name@, #[trigger] before[k]),
            decreases sorted@.len() - at,
        {
            at += 1;
        }
        sorted.insert(at, name);
        proof {
            let after = texts(sorted@);
            assert(after =~= before.insert(at as int, name@));
            to_multiset_insert(before, at as int, name@);
            assert(texts(names@.take(i + 1)) =~= texts(names@.take(i as int)).push(name@));
            to_multiset_build(texts(names@.take(i as int)), name@);
            assert forall|a: int, b: int| 0 <= a < b < after.len() implies !name_lt(
                #[trigger] after[b],
                #[trigger] after[a],
            ) by {
                if b < at {
                    assert(after[a] == before[a] && after[b] == before[b]);
                } else if b == at {
                    assert(after[a] == before[a]);
                } else if a == at {
                    assert(after[b] == before[b - 1]);
                    assert(name_lt(name@, before[at as int]));
                    if name_lt(before[b - 1], name@) {
                        lemma_name_lt_transitive(before[b - 1], name@, before[at as int]);
                        lemma_name_lt_trichotomy(before[at as int], before[at as int]);
                    }
                } else if a < at {
                    assert(after[a] == before[a] && after[b] == before[b - 1]);
                } else {
                    assert(after[a] == before[a - 1] && after[b] == before[b - 1]);
                }
            }
        }
        i += 1;
    }
    assert(names@.take(i as int) =~= names@);
    sorted
}

/// A file to write into the directory of a migration.
#[derive(Debug, PartialEq, Eq)]
pub struct NewFile {
    /// The name of the file.
    pub name: String,
    /// What the file is to hold.
    pub contents: String,
}

/// What an optional text holds: nothing where there is none.
pub open spec fn text_or_empty(text: Option<&str>) -> Seq<char> {
    match text {
        Some(t) => t@,
        None => ""@,
    }
}

/// What an optional text holds: nothing where there is none.
fn or_empty(text: Option<&str>) -> (out: String)
    ensures
        out@ == text_or_empty(text),
{
    match text {
        Some(t) => t.to_owned(),
        None => "".to_owned(),
    }
}

impl MigrationsDir {
    /// The directory at the path `dir`.
    pub fn new(dir: &str) -> (res: Self)
        ensures
            res.dir@ == dir@,
    {
        MigrationsDir { dir: dir.to_owned() }
    }

    /// Refuses a directory that does not exist; `exists` says whether it
    /// does.
    pub fn check(&self, exists: bool) -> (res: Result<(), DirError>)
        ensures
            res is Ok <==> exists,
            res matches Err(e) ==> e matches DirError::Missing(dir) && dir@ == self.dir@,
    {
        if !exists {
            return Err(DirError::Missing(self.dir.clone()));
        }
        Ok(())
    }

    /// Refuses to create a directory that exists already; `exists` says
    /// whether it does.
    pub fn create(&self, exists: bool) -> (res: Result<(), DirError>)
        ensures
            res is Ok <==> !exists,
            res matches Err(e) ==> e matches DirError::AlreadyExists(dir) && dir@ == self.dir@,
    {
        if exists {
            return Err(DirError::AlreadyExists(self.dir.clone()));
        }
        Ok(())
    }

    /// The files of a new migration: `up.sql` and `seed.sql` hold what is
    /// given, or nothing, and `down.sql` is empty.
    pub fn create_migration(&self, up_sql: Option<&str>, seed_sql: Option<&str>) -> (files: Vec<
        NewFile,
    >)
        ensures
            files@.len() == 3,
            files@[0].name@ == "up.sql"@ && files@[0].contents@ == text_or_empty(up_sql),
            files@[1].name@ == "down.sql"@ && files@[1].contents@ == ""@,
            files@[2].name@ == "seed.sql"@ && files@[2].contents@ == text_or_empty(seed_sql),
    {
        let mut files: Vec<NewFile> = Vec::new();
        files.push(NewFile { name: "up.sql".to_owned(), contents: or_empty(up_sql) });
        files.push(NewFile { name: "down.sql".to_owned(), contents: "".to_owned() });
        files.push(NewFile { name: "seed.sql".to_owned(), contents: or_empty(seed_sql) });
        files
    }

    /// The order in which the migrations are loaded: ascending by compound
    /// name. `exists` says whether the directory does, and `names` holds the
    /// names of the directories in it.
    pub fn load(&self, exists: bool, names: &Vec<String>) -> (res: Result<Vec<String>, DirError>)
        ensures
            res is Ok <==> exists,
            res matches Err(e) ==> e matches DirError::Missing(dir) && dir@ == self.dir@,
            res matches Ok(sorted) ==> in_order(texts(sorted@)) && texts(sorted@).to_multiset()
                == texts(names@).to_multiset(),
    {
        match self.check(exists) {
            Err(e) => Err(e),
            Ok(_) => Ok(sort_names(names)),
        }
    }
}

/// The directory of the migrations: the one asked for, or `./db/migrations`.
pub fn get_migrations_dir(migrations_dir: Option<&str>) -> (res: MigrationsDir)
    ensures
        res.dir@ == match migrations_dir {
            Some(dir) => dir@,
            None => DEFAULT_MIGRATIONS_DIR@,
        },
{
    match migrations_dir {
        Some(dir) => MigrationsDir::new(dir),
        None => MigrationsDir::new(DEFAULT_MIGRATIONS_DIR),
    }
}

} // verus!
