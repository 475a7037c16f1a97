//! Summing up an indexing run.
//!
//! Hashing files, reading their tags and writing the database is the caller's
//! business.  It reports what became of each file, and the tally is made here.

use vstd::prelude::*;

verus! {

/// What became of one file.
#[derive(Debug, Clone)]
pub enum FileOutcome {
    /// The file was new or had changed, and its record was written.
    Updated,
    /// The file was unchanged since it was last indexed.
    Skipped,
    /// The file could not be indexed; the text says why.
    Failed(String),
}

/// Result of an indexing run.
#[derive(Debug, Clone)]
pub struct IndexingResult {
    pub total_files: usize,
    pub successful: usize,
    pub failed: usize,
    pub skipped: usize,
    pub updated: usize,
    pub removed: usize,
    pub errors: Vec<String>,
}

/// Progress of an indexing run.
#[derive(Debug, Clone)]
pub struct IndexingProgress {
    pub current: usize,
    pub total: usize,
    pub current_file: String,
}

/// Indexer that adds tracks to the library.
pub struct LibraryIndexer;

/// Number of files among `outcomes` whose record was written.
pub open spec fn count_updated(outcomes: Seq<FileOutcome>) -> nat
    decreases outcomes.len(),
{
    if outcomes.len() == 0 {
        0
    } else {
        count_updated(outcomes.drop_last()) + if outcomes.last() is Updated {
            1nat
        } else {
            0nat
        }
    }
}

/// Number of files among `outcomes` that were unchanged.
pub open spec fn count_skipped(outcomes: Seq<FileOutcome>) -> nat
    decreases outcomes.len(),
{
    if outcomes.len() == 0 {
        0
    } else {
        count_skipped(outcomes.drop_last()) + if outcomes.last() is Skipped {
            1nat
        } else {
            0nat
        }
    }
}

/// The reasons of the failures among `outcomes`, in order.
pub open spec fn failure_texts(outcomes: Seq<FileOutcome>) -> Seq<Seq<char>>
    decreases outcomes.len(),
{
    if outcomes.len() == 0 {
        Seq::empty()
    } else {
        let before = failure_texts(outcomes.drop_last());
        match outcomes.last() {
            FileOutcome::Failed(text) => before.push(text@),
            _ => before,
        }
    }
}

/// The texts of a sequence of strings.
pub open spec fn texts(strings: Seq<String>) -> Seq<Seq<char>> {
    Seq::new(strings.len(), |i: int| strings[i]@)
}

/// Every file is counted once: updated, skipped or failed.
pub proof fn outcomes_partition(outcomes: Seq<FileOutcome>)
    ensures
        count_updated(outcomes) + count_skipped(outcomes) + failure_texts(outcomes).len()
            == outcomes.len(),
    decreases outcomes.len(),
{
    if outcomes.len() > 0 {
        outcomes_partition(outcomes.drop_last());
    }
}

impl LibraryIndexer {
    /// The tally of a run in which the files met the given outcomes and
    /// `removed` stale records were deleted afterwards.
    pub fn summarize(outcomes: Vec<FileOutcome>, removed: usize) -> (result: IndexingResult)
        ensures
            result.total_files == outcomes@.len(),
            result.updated == count_updated(outcomes@),
            result.skipped == count_skipped(outcomes@),
            result.successful == result.updated + result.skipped,
            result.failed == failure_texts(outcomes@).len(),
            result.successful + result.failed == result.total_files,
            texts(result.errors@) == failure_texts(outcomes@),
            result.removed == removed,
    {
        let total_files = outcomes.len();
        let mut updated: usize = 0;
        let mut skipped: usize = 0;
        let mut errors: Vec<String> = Vec::new();
        let mut i: usize = 0;
        proof {
            assert(texts(errors@) =~= failure_texts(outcomes@.subrange(0, 0)));
        }
        while i < outcomes.len()
            invariant
                i <= outcomes@.len(),
                updated == count_updated(outcomes@.subrange(0, i as int)),
                skipped == count_skipped(outcomes@.subrange(0, i as int)),
                texts(errors@) == failure_texts(outcomes@.subrange(0, i as int)),
                updated + skipped + errors@.len() == i,
            decreases outcomes@.len() - i,
        {
            proof {
                let upto = outcomes@.subrange(0, i + 1);
                assert(upto.drop_last() =~= outcomes@.subrange(0, i as int));
                assert(upto.last() == outcomes@[i as int]);
            }
            match &outcomes[i] {
                FileOutcome::Updated => {
                    updated = updated + 1;
                },
                FileOutcome::Skipped => {
                    skipped = skipped + 1;
                },
                FileOutcome::Failed(text) => {
                    let ghost before = texts(errors@);
                    errors.push(text.clone());
                    proof {
                        assert(texts(errors@) =~= before.push(text@));
                    }
                },
            }
            i = i + 1;
        }
        proof {
            assert(outcomes@.subrange(0, outcomes@.len() as int) =~= outcomes@);
        }
        let failed = errors.len();
        IndexingResult {
            total_files,
            successful: updated + skipped,
            failed,
            skipped,
            updated,
            removed,
            errors,
        }
    }

    /// Whether a file is unchanged since it was indexed: a hash is stored for
    /// it and equals the hash of its contents now.  Unchanged files are
    /// skipped.
    pub fn is_unchanged(stored_hash: Option<&str>, file_hash: &str) -> (unchanged: bool)
        ensures
            unchanged == (stored_hash matches Some(stored) && stored@ == file_hash@),
    {
        match stored_hash {
            Some(stored) => {
                let left: String = stored.to_owned();
                let right: String = file_hash.to_owned();
                left == right
            },
            None => false,
        }
    }

    /// The progress to report before file `index` of `total` is indexed.  A
    /// file whose name cannot be shown is reported as `unknown`.
    pub fn progress_for(index: usize, total: usize, file_name: Option<&str>) -> (progress:
        IndexingProgress)
        requires
            index < total,
        ensures
            progress.current == index + 1,
            progress.total == total,
            progress.current_file@ == (match file_name {
                Some(name) => name@,
                None => "unknown"@,
            }),
    {
        let current_file: String = match file_name {
            Some(name) => name.to_owned(),
            None => "unknown".to_owned(),
        };
        IndexingProgress { current: index + 1, total, current_file }
    }
}

} // verus!
