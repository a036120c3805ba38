//! Version-control sync of the notes directory: the commit message, the
//! git commands to run and the status report. Running git is left to the
//! caller.

use vstd::prelude::*;
use crate::config::{join_path, notes_dir};
use crate::notes::local_stamp;

verus! {

/// Relies on `std::path::Path::exists`: whether something exists at `path`
/// now.
#[verifier::external_body]
fn path_exists(path: &str) -> (r: bool) {
    std::path::Path::new(path).exists()
}

pub open spec fn commit_message_of(stamp: Seq<char>) -> Seq<char> {
    "kiri: notes update "@ + stamp
}

/// The message of a notes commit made at `stamp`.
pub fn commit_message(stamp: &str) -> (r: String)
    ensures
        r@ == commit_message_of(stamp@),
{
    let mut m = String::from_str("kiri: notes update ");
    m.append(stamp);
    m
}

/// The message of a notes commit made now, stamped with the local date and
/// minute.
pub fn commit_message_now() -> (r: String)
    ensures
        exists|stamp: Seq<char>| r@ == commit_message_of(stamp),
{
    let stamp = local_stamp();
    commit_message(stamp.as_str())
}

/// Whether the notes directory is under version control: it holds a `.git`
/// entry. False when there is no home directory.
pub fn is_notes_repo() -> (r: bool) {
    match notes_dir() {
        Some(dir) => {
            let git = join_path(dir.as_str(), ".git");
            path_exists(git.as_str())
        },
        None => false,
    }
}

/// Why a sync cannot be done.
#[derive(Clone, Copy, Debug, PartialEq, Eq, Structural)]
pub enum SyncError {
    /// The notes directory is not a git repository.
    NotARepo,
}

impl SyncError {
    /// What the user is told.
    pub fn message(&self) -> (r: String)
        ensures
            r@ == "Not a git repo. Run: kiri sync --init <url>"@,
    {
        String::from_str("Not a git repo. Run: kiri sync --init <url>")
    }
}

/// The git arguments that publish the notes: refused unless the notes
/// directory is a repository.
pub fn push_notes(is_repo: bool) -> (r: Result<Vec<&'static str>, SyncError>)
    ensures
        !is_repo ==> r == Err::<Vec<&'static str>, SyncError>(SyncError::NotARepo),
        is_repo ==> r is Ok && r->Ok_0@.len() == 4 && r->Ok_0@[0]@ == "push"@ && r->Ok_0@[1]@
            == "-u"@ && r->Ok_0@[2]@ == "origin"@ && r->Ok_0@[3]@ == "main"@,
{
    if !is_repo {
        return Err(SyncError::NotARepo);
    }
    let mut args: Vec<&'static str> = Vec::new();
    args.push("push");
    args.push("-u");
    args.push("origin");
    args.push("main");
    Ok(args)
}

pub open spec fn status_of(is_repo: bool, dir: Seq<char>, log: Seq<char>) -> Seq<char> {
    if is_repo {
        "Notes dir: "@ + dir + "\nRecent commits:\n"@ + log
    } else {
        "Not a git repo: "@ + dir
    }
}

/// The sync status report for the notes directory `dir`, with the recent
/// commit `log` when it is a repository.
pub fn status(is_repo: bool, dir: &str, log: &str) -> (r: String)
    ensures
        r@ == status_of(is_repo, dir@, log@),
{
    if !is_repo {
        let mut s = String::from_str("Not a git repo: ");
        s.append(dir);
        return s;
    }
    let mut s = String::from_str("Notes dir: ");
    s.append(dir);
    s.append("\nRecent commits:\n");
    s.append(log);
    s
}

} // verus!
