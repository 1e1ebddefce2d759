//! The migration record and its mathematical view.

use vstd::prelude::*;
use vstd::string::*;
use crate::digest::{content_hash, hash_of};
use crate::naming::{
    NameError, NameErrorView, datetime_rejection, from_compound_name, short_name, timestamp_format,
    timestamp_part,
};

verus! {

/// One migration, loaded from its directory or read back from the tracking table.
#[derive(Debug, PartialEq, Eq)]
pub struct Migration {
    /// Short name, e.g. `create_users`.
    pub name: String,
    /// Timestamp, underscore and short name, e.g. `20230623041234_create_users`.
    pub compound_name: String,
    /// Contents of `up.sql`; absent on a record read from the database.
    pub up_sql: Option<String>,
    /// Contents of `down.sql`; absent when the migration cannot be reverted.
    pub down_sql: Option<String>,
    /// Contents of `seed.sql`, if any.
    pub seed_sql: Option<String>,
    /// Lower-case hex SHA-256 of `up.sql`, or the hash recorded when it was applied.
    pub hash: String,
}

/// What a [`Migration`] holds, as plain text.
pub struct MigrationView {
    pub name: Seq<char>,
    pub compound_name: Seq<char>,
    pub up_sql: Option<Seq<char>>,
    pub down_sql: Option<Seq<char>>,
    pub seed_sql: Option<Seq<char>>,
    pub hash: Seq<char>,
}

/// The text of an optional string.
pub open spec fn text_of(s: Option<String>) -> Option<Seq<char>> {
    match s {
        Some(t) => Some(t@),
        None => None,
    }
}

impl View for Migration {
    type V = MigrationView;

    open spec fn view(&self) -> MigrationView {
        MigrationView {
            name: self.name@,
            compound_name: self.compound_name@,
            up_sql: text_of(self.up_sql),
            down_sql: text_of(self.down_sql),
            seed_sql: text_of(self.seed_sql),
            hash: self.hash@,
        }
    }
}

/// A copy of an optional string.
pub fn clone_text(s: &Option<String>) -> (r: Option<String>)
    ensures
        r == *s,
{
    match s {
        Some(t) => Some(t.clone()),
        None => None,
    }
}

impl Clone for Migration {
    fn clone(&self) -> (r: Self)
        ensures
            r == *self,
    {
        Migration {
            name: self.name.clone(),
            compound_name: self.compound_name.clone(),
            up_sql: clone_text(&self.up_sql),
            down_sql: clone_text(&self.down_sql),
            seed_sql: clone_text(&self.seed_sql),
            hash: self.hash.clone(),
        }
    }
}

/// The text of an optional script, where an empty script counts as none.
pub open spec fn present(script: Option<Seq<char>>) -> Option<Seq<char>> {
    match script {
        Some(text) => if text.len() > 0 {
            Some(text)
        } else {
            None
        },
        None => None,
    }
}

/// The record of a migration read back from the tracking table, where
/// `verdict` says why the timestamp of its compound name is no date and time,
/// if it is none.
pub open spec fn remote_record(
    compound_name: Seq<char>,
    hash: Seq<char>,
    down_sql: Option<Seq<char>>,
    verdict: Option<Seq<char>>,
) -> Result<MigrationView, NameErrorView> {
    match short_name(compound_name, verdict) {
        Ok(name) => Ok(
            MigrationView { name, compound_name, up_sql: None, down_sql, seed_sql: None, hash },
        ),
        Err(e) => Err(e),
    }
}

/// The record of a migration loaded from the files of its directory, where
/// `verdict` says why the timestamp of its compound name is no date and time,
/// if it is none. Its hash is the content hash of `up.sql`.
pub open spec fn local_record(
    compound_name: Seq<char>,
    up_sql: Seq<char>,
    down_sql: Option<Seq<char>>,
    seed_sql: Option<Seq<char>>,
    verdict: Option<Seq<char>>,
) -> Result<MigrationView, NameErrorView> {
    match short_name(compound_name, verdict) {
        Ok(name) => Ok(
            MigrationView {
                name,
                compound_name,
                up_sql: Some(up_sql),
                down_sql: present(down_sql),
                seed_sql: present(seed_sql),
                hash: hash_of(up_sql),
            },
        ),
        Err(e) => Err(e),
    }
}

/// What a call that built a migration returned, as plain text.
pub open spec fn built(res: Result<Migration, NameError>) -> Result<MigrationView, NameErrorView> {
    match res {
        Ok(m) => Ok(m@),
        Err(e) => Err(e@),
    }
}

/// The script, unless it is empty.
fn non_empty(script: Option<String>) -> (r: Option<String>)
    ensures
        text_of(r) == present(text_of(script)),
{
    match script {
        Some(text) => if text.as_str().is_empty() {
            None
        } else {
            Some(text)
        },
        None => None,
    }
}

impl Migration {
    /// The migration in the directory named `compound_name`, from what its
    /// files hold: `up_sql` for `up.sql`, and for `down.sql` and `seed.sql`
    /// their contents, or `None` for a file that could not be read. An empty
    /// file counts as none.
    pub fn from_dir(
        compound_name: String,
        up_sql: String,
        down_sql: Option<String>,
        seed_sql: Option<String>,
    ) -> (res: Result<Migration, NameError>)
        ensures
            built(res) == local_record(
                compound_name@,
                up_sql@,
                text_of(down_sql),
                text_of(seed_sql),
                datetime_rejection(timestamp_part(compound_name@), timestamp_format()),
            ),
            res matches Ok(m) ==> m.hash@ == hash_of(m.up_sql->0@),
    {
        let name = match from_compound_name(compound_name.as_str()) {
            Ok(name) => name,
            Err(e) => {
                return Err(e);
            },
        };
        let hash = content_hash(up_sql.as_str());
        Ok(
            Migration {
                name,
                compound_name,
                up_sql: Some(up_sql),
                down_sql: non_empty(down_sql),
                seed_sql: non_empty(seed_sql),
                hash,
            },
        )
    }

    /// The record of a migration as the tracking table holds it.
    pub fn from_db(compound_name: String, hash: String, down_sql: Option<String>) -> (res: Result<
        Migration,
        NameError,
    >)
        ensures
            built(res) == remote_record(
                compound_name@,
                hash@,
                text_of(down_sql),
                datetime_rejection(timestamp_part(compound_name@), timestamp_format()),
            ),
    {
        let name = match from_compound_name(compound_name.as_str()) {
            Ok(name) => name,
            Err(e) => {
                return Err(e);
            },
        };
        Ok(Migration { name, compound_name, up_sql: None, down_sql, seed_sql: None, hash })
    }
}

/// The views of a sequence of migrations, in order.
pub open spec fn views(s: Seq<Migration>) -> Seq<MigrationView> {
    s.map_values(|m: Migration| m@)
}

/// Whether some migration of `s` carries the compound name `name`.
pub open spec fn has_name(s: Seq<MigrationView>, name: Seq<char>) -> bool {
    exists|i: int| 0 <= i < s.len() && (#[trigger] s[i]).compound_name == name
}

/// The migration of `s` that an index keyed on compound names holds under
/// `name`: the last one with that name.
pub open spec fn find_by_name(s: Seq<MigrationView>, name: Seq<char>) -> Option<MigrationView>
    decreases s.len(),
{
    if s.len() == 0 {
        None
    } else if s.last().compound_name == name {
        Some(s.last())
    } else {
        find_by_name(s.drop_last(), name)
    }
}

/// A name is found exactly when some migration carries it, and what is found
/// is a migration of the sequence with that name.
pub proof fn lemma_find_by_name(s: Seq<MigrationView>, name: Seq<char>)
    ensures
        find_by_name(s, name) is Some <==> has_name(s, name),
        find_by_name(s, name) matches Some(m) ==> m.compound_name == name && s.contains(m),
    decreases s.len(),
{
    if s.len() > 0 {
        lemma_find_by_name(s.drop_last(), name);
        let t = s.drop_last();
        if s.last().compound_name == name {
            assert(s[s.len() - 1].compound_name == name);
        } else {
            if has_name(t, name) {
                let i = choose|i: int| 0 <= i < t.len() && (#[trigger] t[i]).compound_name == name;
                assert(s[i] == t[i]);
            }
            if has_name(s, name) {
                let i = choose|i: int| 0 <= i < s.len() && (#[trigger] s[i]).compound_name == name;
                assert(t[i] == s[i]);
            }
            if let Some(m) = find_by_name(t, name) {
                let j = choose|j: int| 0 <= j < t.len() && t[j] == m;
                assert(s[j] == m);
            }
        }
    }
}

} // verus!
