//! The guard that keeps a partial download from being taken for a complete one.

use vstd::prelude::*;

verus! {

/// What becomes of the destination file when its guard is released.
#[derive(Clone, Copy, Debug, PartialEq, Eq, Structural)]
pub enum Disposal {
    /// The file is left as it is.
    Keep,
    /// The file is deleted; a failure to delete it is not reported.
    Remove,
}

/// The decision taken at release: only an unfinished transfer whose file is
/// on disk has that file removed.
pub open spec fn disposal(completed: bool, file_exists: bool) -> Disposal {
    if !completed && file_exists {
        Disposal::Remove
    } else {
        Disposal::Keep
    }
}

/// A directory as far as the guard is concerned: the files in it, by path,
/// each with its bytes.
pub type Files = Map<Seq<char>, Seq<u8>>;

/// The directory once a guard for `path` has been released and its decision
/// carried out.
pub open spec fn files_after_release(files: Files, path: Seq<char>, completed: bool) -> Files {
    match disposal(completed, files.contains_key(path)) {
        Disposal::Remove => files.remove(path),
        Disposal::Keep => files,
    }
}

/// Guard over the destination of one transfer.
///
/// It starts out unfinished and is marked complete only once the whole body
/// has been written. Whoever holds it asks [`DownloadFile::release`] when the
/// transfer ends, however it ends, and carries out the answer.
#[derive(Debug)]
pub struct DownloadFile {
    path: String,
    completed: bool,
}

impl DownloadFile {
    /// The guarded path.
    pub closed spec fn path(&self) -> Seq<char> {
        self.path@
    }

    /// Whether the transfer has been marked complete.
    pub closed spec fn completed(&self) -> bool {
        self.completed
    }

    /// Starts guarding `path`. Nothing is complete yet.
    pub fn acquire(path: String) -> (guard: DownloadFile)
        ensures
            guard.path() == path@,
            !guard.completed(),
    {
        DownloadFile { path, completed: false }
    }

    /// Records that the entire body has been written.
    pub fn mark_complete(&mut self)
        ensures
            final(self).completed(),
            final(self).path() == old(self).path(),
    {
        self.completed = true;
    }

    /// Whether [`DownloadFile::mark_complete`] has been called.
    pub fn is_complete(&self) -> (done: bool)
        ensures
            done == self.completed(),
    {
        self.completed
    }

    /// The guarded path, for the caller that has to probe or delete the file.
    pub fn destination(&self) -> (path: &str)
        ensures
            path@ == self.path(),
    {
        self.path.as_str()
    }

    /// Decides what happens to the destination at release, given whether a
    /// file currently exists there.
    pub fn release(&self, file_exists: bool) -> (verdict: Disposal)
        ensures
            verdict == disposal(self.completed(), file_exists),
    {
        if !self.completed && file_exists {
            Disposal::Remove
        } else {
            Disposal::Keep
        }
    }
}

/// A file that is still at the guarded path after release belongs to a
/// transfer that was marked complete.
pub proof fn lemma_file_left_implies_complete(files: Files, guard: DownloadFile)
    requires
        files_after_release(files, guard.path(), guard.completed()).contains_key(guard.path()),
    ensures
        guard.completed(),
{
}

/// Releasing a guard that was never marked complete leaves no file at its
/// path, whatever had been written there.
pub proof fn lemma_unfinished_transfer_leaves_no_file(files: Files, guard: DownloadFile)
    requires
        !guard.completed(),
    ensures
        !files_after_release(files, guard.path(), guard.completed()).contains_key(guard.path()),
{
}

/// Releasing a guard that was marked complete changes nothing: the file is
/// there with exactly the bytes that were written.
pub proof fn lemma_finished_transfer_keeps_file(files: Files, guard: DownloadFile)
    requires
        guard.completed(),
    ensures
        files_after_release(files, guard.path(), guard.completed()) == files,
{
}

/// Release never touches a file other than the guarded one.
pub proof fn lemma_release_spares_other_files(files: Files, guard: DownloadFile, other: Seq<char>)
    requires
        other != guard.path(),
    ensures
        files_after_release(files, guard.path(), guard.completed()).contains_key(other)
            == files.contains_key(other),
        files.contains_key(other) ==> files_after_release(
            files,
            guard.path(),
            guard.completed(),
        )[other] == files[other],
{
}

} // verus!
