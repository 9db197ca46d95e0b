//! Writing a file without losing what it held: a file that is there is moved
//! aside to a backup before the new contents are written in its place.
//!
//! The steps are decided here and carried out by the caller. What they do to
//! a directory is stated over a model of it, a map from paths to contents.

use vstd::prelude::*;
use vstd::string::StringExecFns;
use crate::feed_store::FeedStore;

verus! {

/// One step on the file system.
#[derive(Clone, Debug, PartialEq, Eq)]
pub enum FileStep {
    /// Move the file at `from` to `to`, in place of what is there.
    Rename { from: String, to: String },
    /// Create or overwrite the file at `path`.
    Write { path: String, contents: Vec<u8> },
}

/// The mathematical value of a [`FileStep`].
pub enum FileStepView {
    Rename { from: Seq<char>, to: Seq<char> },
    Write { path: Seq<char>, contents: Seq<u8> },
}

impl View for FileStep {
    type V = FileStepView;

    open spec fn view(&self) -> FileStepView {
        match *self {
            FileStep::Rename { from, to } => FileStepView::Rename { from: from@, to: to@ },
            FileStep::Write { path, contents } => FileStepView::Write {
                path: path@,
                contents: contents@,
            },
        }
    }
}

/// The values of a list of steps.
pub open spec fn steps_view(steps: Seq<FileStep>) -> Seq<FileStepView> {
    steps.map_values(|s: FileStep| s@)
}

/// Where the previous contents of a file are kept.
pub open spec fn backup_of(path: Seq<char>) -> Seq<char> {
    path + ".backup"@
}

/// The steps that write a file: where one is there already, it is moved to
/// its backup first.
pub open spec fn write_steps(path: Seq<char>, contents: Seq<u8>, exists: bool) -> Seq<
    FileStepView,
> {
    if exists {
        seq![
            FileStepView::Rename { from: path, to: backup_of(path) },
            FileStepView::Write { path, contents },
        ]
    } else {
        seq![FileStepView::Write { path, contents }]
    }
}

/// A directory after one step. Moving a file that is not there changes
/// nothing.
pub open spec fn after_step(files: Map<Seq<char>, Seq<u8>>, step: FileStepView) -> Map<
    Seq<char>,
    Seq<u8>,
> {
    match step {
        FileStepView::Rename { from, to } => if files.contains_key(from) {
            files.remove(from).insert(to, files[from])
        } else {
            files
        },
        FileStepView::Write { path, contents } => files.insert(path, contents),
    }
}

/// A directory after a list of steps, taken in order.
pub open spec fn after_steps(files: Map<Seq<char>, Seq<u8>>, steps: Seq<FileStepView>) -> Map<
    Seq<char>,
    Seq<u8>,
>
    decreases steps.len(),
{
    if steps.len() == 0 {
        files
    } else {
        after_step(after_steps(files, steps.drop_last()), steps.last())
    }
}

/// A directory after a file was written to it with [`FeedStore::write`].
pub open spec fn after_write(files: Map<Seq<char>, Seq<u8>>, path: Seq<char>, contents: Seq<u8>)
    -> Map<Seq<char>, Seq<u8>> {
    after_steps(files, write_steps(path, contents, files.contains_key(path)))
}

impl FeedStore {
    /// Plans the writing of `contents` to `path`. `exists` says whether a
    /// file is at `path` now.
    pub fn write(path: &str, contents: Vec<u8>, exists: bool) -> (r: Vec<FileStep>)
        ensures
            steps_view(r@) == write_steps(path@, contents@, exists),
    {
        let mut steps: Vec<FileStep> = Vec::new();
        if exists {
            let mut backup = path.to_owned();
            backup.append(".backup");
            steps.push(FileStep::Rename { from: path.to_owned(), to: backup });
        }
        steps.push(FileStep::Write { path: path.to_owned(), contents });
        assert(steps_view(steps@) =~= write_steps(path@, contents@, exists));
        steps
    }
}

/// A file holds what was written to it; what it held before is in its
/// backup, and no other file is touched.
pub proof fn lemma_write_keeps_previous(
    files: Map<Seq<char>, Seq<u8>>,
    path: Seq<char>,
    contents: Seq<u8>,
)
    ensures
        after_write(files, path, contents).contains_key(path),
        after_write(files, path, contents)[path] == contents,
        files.contains_key(path) ==> after_write(files, path, contents).contains_key(
            backup_of(path),
        ) && after_write(files, path, contents)[backup_of(path)] == files[path],
        after_write(files, path, contents).remove(path).remove(backup_of(path)) == files.remove(
            path,
        ).remove(backup_of(path)),
        !files.contains_key(path) ==> after_write(files, path, contents) == files.insert(
            path,
            contents,
        ),
{
    reveal_strlit(".backup");
    assert(backup_of(path).len() == path.len() + 7);
    let steps = write_steps(path, contents, files.contains_key(path));
    if files.contains_key(path) {
        let first = steps.drop_last();
        assert(first.drop_last().len() == 0);
        assert(after_steps(files, first.drop_last()) == files);
        assert(after_steps(files, first) == after_step(files, first.last()));
        assert(after_write(files, path, contents).remove(path).remove(backup_of(path))
            =~= files.remove(path).remove(backup_of(path)));
    } else {
        assert(steps.drop_last().len() == 0);
        assert(after_steps(files, steps.drop_last()) == files);
        assert(after_write(files, path, contents).remove(path).remove(backup_of(path))
            =~= files.remove(path).remove(backup_of(path)));
    }
}

/// After two writes to one path the file holds what was written last and its
/// backup what was written first; no other file is touched.
pub proof fn lemma_second_write_backs_up_first(
    files: Map<Seq<char>, Seq<u8>>,
    path: Seq<char>,
    first: Seq<u8>,
    second: Seq<u8>,
)
    ensures
        ({
            let end = after_write(after_write(files, path, first), path, second);
            &&& end.contains_key(path) && end[path] == second
            &&& end.contains_key(backup_of(path)) && end[backup_of(path)] == first
            &&& end.remove(path).remove(backup_of(path)) == files.remove(path).remove(
                backup_of(path),
            )
        }),
{
    lemma_write_keeps_previous(files, path, first);
    lemma_write_keeps_previous(after_write(files, path, first), path, second);
}

} // verus!
