//! The programs that dump a database, and what is kept of a dump.

use vstd::prelude::*;
use vstd::string::*;
use crate::sql::Backend;
use crate::text::{contains_text, holds_text, joined, texts};

verus! {

/// A program and the arguments it is started with.
#[derive(Debug, PartialEq, Eq)]
pub struct Command {
    pub program: String,
    pub arguments: Vec<String>,
}

/// What a dump is for.
#[derive(Debug, Clone, Copy, PartialEq, Eq, Structural)]
pub enum DumpKind {
    /// The schema as it stands, tracking table included.
    Schema,
    /// The schema without the tracking table, as the baseline of a rollup.
    BaselineSchema,
    /// The data without the tracking table, as the seed of a rollup.
    BaselineData,
}

/// The program that dumps a database of the given backend.
pub open spec fn dump_program(backend: Backend) -> Seq<char> {
    match backend {
        Backend::Postgres => "pg_dump"@,
        Backend::Sqlite => "sqlite3"@,
    }
}

/// The arguments that the dump of the database at `url` takes.
pub open spec fn dump_arguments(backend: Backend, kind: DumpKind, url: Seq<char>) -> Seq<
    Seq<char>,
> {
    match (backend, kind) {
        (Backend::Postgres, DumpKind::Schema) => seq![
            "--schema-only"@,
            "--no-owner"@,
            "--no-privileges"@,
            "--dbname="@ + url,
        ],
        (Backend::Postgres, DumpKind::BaselineSchema) => seq![
            "--schema-only"@,
            "--no-owner"@,
            "--no-privileges"@,
            "--exclude-schema=crude"@,
            "--dbname="@ + url,
        ],
        (Backend::Postgres, DumpKind::BaselineData) => seq![
            "--data-only"@,
            "--inserts"@,
            "--no-owner"@,
            "--no-privileges"@,
            "--exclude-schema=crude"@,
            "--dbname="@ + url,
        ],
        (Backend::Sqlite, DumpKind::BaselineData) => seq![url, ".dump"@],
        (Backend::Sqlite, _) => seq![url, ".schema"@],
    }
}

/// Whether the lines of the dump that speak of the tracking table are to be
/// left out: SQLite cannot leave the table out itself.
pub open spec fn dump_is_filtered(backend: Backend, kind: DumpKind) -> bool {
    backend == Backend::Sqlite && kind != DumpKind::Schema
}

/// The command that dumps the database at `url`.
pub fn dump_command(backend: Backend, kind: DumpKind, url: &str) -> (command: Command)
    ensures
        command.program@ == dump_program(backend),
        texts(command.arguments@) == dump_arguments(backend, kind, url@),
{
    let mut arguments: Vec<String> = Vec::new();
    match backend {
        Backend::Postgres => {
            match kind {
                DumpKind::BaselineData => {
                    arguments.push("--data-only".to_owned());
                    arguments.push("--inserts".to_owned());
                },
                _ => {
                    arguments.push("--schema-only".to_owned());
                },
            }
            arguments.push("--no-owner".to_owned());
            arguments.push("--no-privileges".to_owned());
            match kind {
                DumpKind::Schema => {},
                _ => {
                    arguments.push("--exclude-schema=crude".to_owned());
                },
            }
            arguments.push(joined("--dbname=", url));
            assert(texts(arguments@) =~= dump_arguments(backend, kind, url@));
            Command { program: "pg_dump".to_owned(), arguments }
        },
        Backend::Sqlite => {
            arguments.push(url.to_owned());
            match kind {
                DumpKind::BaselineData => {
                    arguments.push(".dump".to_owned());
                },
                _ => {
                    arguments.push(".schema".to_owned());
                },
            }
            assert(texts(arguments@) =~= dump_arguments(backend, kind, url@));
            Command { program: "sqlite3".to_owned(), arguments }
        },
    }
}

/// Whether the lines of the dump that speak of the tracking table are to be
/// left out.
pub fn filters_dump(backend: Backend, kind: DumpKind) -> (r: bool)
    ensures
        r == dump_is_filtered(backend, kind),
{
    match (backend, kind) {
        (Backend::Sqlite, DumpKind::Schema) => false,
        (Backend::Sqlite, _) => true,
        (Backend::Postgres, _) => false,
    }
}

/// The lines that do not speak of the tracking table of SQLite.
pub open spec fn apart_from_tracking() -> spec_fn(Seq<char>) -> bool {
    |line: Seq<char>| !contains_text(line, "crude_migrations"@)
}

/// The first `upto` of `lines`, with a line break between them.
pub open spec fn joined_lines(lines: Seq<Seq<char>>, upto: nat) -> Seq<char>
    decreases upto,
{
    if upto == 0 {
        Seq::empty()
    } else if upto == 1 {
        lines[0]
    } else {
        joined_lines(lines, (upto - 1) as nat) + "\n"@ + lines[upto - 1]
    }
}

/// The dump without the lines that speak of the tracking table.
pub open spec fn dump_without_tracking(lines: Seq<Seq<char>>) -> Seq<char> {
    let kept = lines.filter(apart_from_tracking());
    joined_lines(kept, kept.len())
}

/// The lines of a dump that do not speak of the tracking table, with a line
/// break between them.
pub fn without_tracking_lines(lines: &Vec<String>) -> (text: String)
    ensures
        text@ == dump_without_tracking(texts(lines@)),
{
    let ghost all = texts(lines@);
    let ghost keep = apart_from_tracking();
    let mut text = String::new();
    let mut kept: Ghost<Seq<Seq<char>>> = Ghost(Seq::empty());
    let mut any = false;
    let mut i: usize = 0;
    assert(kept@ =~= all.take(0).filter(keep)) by {
        reveal(Seq::filter);
    }
    while i < lines.len()
        invariant
            i <= lines@.len(),
            all == texts(lines@),
            keep == apart_from_tracking(),
            kept@ == all.take(i as int).filter(keep),
            any == (kept@.len() > 0),
            text@ == joined_lines(kept@, kept@.len()),
        decreases lines@.len() - i,
    {
        let line = &lines[i];
        proof {
            assert(all.take(i + 1) =~= all.take(i as int).push(line@));
            all.take(i as int).lemma_filter_push(line@, keep);
        }
        if !holds_text(line.as_str(), "crude_migrations") {
            let ghost before = kept@;
            let ghost so_far = text@;
            if any {
                text.append("\n");
            }
            text.append(line.as_str());
            any = true;
            proof {
                kept@ = before.push(line@);
                assert(joined_lines(kept@, before.len()) == joined_lines(before, before.len())) by {
                    lemma_joined_lines_prefix(before, kept@, before.len());
                }
                if before.len() == 0 {
                    assert(so_far + line@ =~= line@);
                }
            }
        }
        i += 1;
    }
    assert(all.take(i as int) =~= all);
    text
}

/// The first lines joined do not depend on the lines after them.
proof fn lemma_joined_lines_prefix(a: Seq<Seq<char>>, b: Seq<Seq<char>>, upto: nat)
    requires
        upto <= a.len() <= b.len(),
        forall|k: int| 0 <= k < a.len() ==> a[k] == b[k],
    ensures
        joined_lines(a, upto) == joined_lines(b, upto),
    decreases upto,
{
    if upto > 1 {
        lemma_joined_lines_prefix(a, b, (upto - 1) as nat);
    }
}

} // verus!
