use vstd::prelude::*;

use crate::file_name::{extension, extension_of, file_stem, stem_of};

verus! {

/// Whether a file with extension `ext` is taken into a batch.
pub open spec fn eligible_extension(ext: Seq<char>) -> bool {
    ext == "json"@ || ext == "txt"@
}

/// Whether a file named `name` is taken into a batch: one without an
/// extension always is, one with an extension only for `json` and `txt`.
pub open spec fn eligible_name(name: Seq<char>) -> bool {
    match extension_of(name) {
        Some(ext) => eligible_extension(ext),
        None => true,
    }
}

/// The name of the output file written for the input file `name`: its stem
/// followed by `.json`.
pub open spec fn output_name_of(name: Seq<char>) -> Seq<char> {
    stem_of(name) + ".json"@
}

/// Whether a file with extension `ext` is taken into a batch.
pub fn is_eligible_extension(ext: &str) -> (r: bool)
    ensures
        r == eligible_extension(ext@),
{
    let e = String::from_str(ext);
    let json = String::from_str("json");
    let txt = String::from_str("txt");
    e == json || e == txt
}

/// Whether a file named `name` is taken into a batch.
pub fn is_eligible_name(name: &str) -> (r: bool)
    ensures
        r == eligible_name(name@),
{
    match extension(name) {
        Some(ext) => is_eligible_extension(ext.as_str()),
        None => true,
    }
}

/// The name of the output file for the input file `name`.
pub fn output_file_name(name: &str) -> (r: String)
    ensures
        r@ == output_name_of(name@),
{
    let mut r = file_stem(name);
    r.append(".json");
    r
}

/// What the batch does with one entry of the input directory.
pub enum EntryAction {
    /// A subdirectory: not descended into, neither converted nor failed.
    SkipDirectory,
    /// A file whose extension is not taken: neither converted nor failed.
    SkipIgnored,
    /// A file to convert, written to `output_name` in the output directory.
    Convert { output_name: String },
}

/// Decides what to do with the entry `name` of the input directory;
/// `is_dir` tells whether it is a directory.
pub fn plan_entry(is_dir: bool, name: &str) -> (r: EntryAction)
    ensures
        is_dir ==> r is SkipDirectory,
        !is_dir && !eligible_name(name@) ==> r is SkipIgnored,
        !is_dir && eligible_name(name@) ==> (match r {
            EntryAction::Convert { output_name } => output_name@ == output_name_of(name@),
            _ => false,
        }),
{
    if is_dir {
        EntryAction::SkipDirectory
    } else if !is_eligible_name(name) {
        EntryAction::SkipIgnored
    } else {
        EntryAction::Convert { output_name: output_file_name(name) }
    }
}

/// Why a batch failed.
#[derive(Debug, Clone, Copy, PartialEq, Eq, Structural)]
pub enum BatchError {
    /// The input directory does not exist.
    InputMissing,
    /// The input path exists but is not a directory.
    InputNotDirectory,
    /// The output directory could not be created.
    OutputNotCreated,
    /// The input directory could not be listed.
    InputNotListed,
    /// Every entry was visited, and this many of them failed.
    FilesFailed { count: u64 },
}

/// Checks the input path before any work: it must exist and be a directory.
pub fn check_input_dir(exists: bool, is_dir: bool) -> (r: Result<(), BatchError>)
    ensures
        !exists ==> r == Err::<(), BatchError>(BatchError::InputMissing),
        exists && !is_dir ==> r == Err::<(), BatchError>(BatchError::InputNotDirectory),
        exists && is_dir ==> r is Ok,
{
    if !exists {
        Err(BatchError::InputMissing)
    } else if !is_dir {
        Err(BatchError::InputNotDirectory)
    } else {
        Ok(())
    }
}

/// The number of entries among `outcomes` that converted.
pub open spec fn count_converted(outcomes: Seq<bool>) -> nat
    decreases outcomes.len(),
{
    if outcomes.len() == 0 {
        0
    } else {
        count_converted(outcomes.drop_last()) + if outcomes.last() { 1nat } else { 0nat }
    }
}

/// The number of entries among `outcomes` that failed.
pub open spec fn count_failed(outcomes: Seq<bool>) -> nat
    decreases outcomes.len(),
{
    if outcomes.len() == 0 {
        0
    } else {
        count_failed(outcomes.drop_last()) + if outcomes.last() { 0nat } else { 1nat }
    }
}

/// The outcomes of the entries that a batch tried, in the order tried:
/// `true` for a file converted, `false` for a file that failed or an entry
/// that could not be read.
pub struct BatchTally {
    processed: u64,
    failed: u64,
    outcomes: Ghost<Seq<bool>>,
}

impl View for BatchTally {
    type V = Seq<bool>;

    closed spec fn view(&self) -> Seq<bool> {
        self.outcomes@
    }
}

impl BatchTally {
    /// The counters agree with the outcomes.
    pub closed spec fn wf(&self) -> bool {
        &&& self.processed == count_converted(self.outcomes@)
        &&& self.failed == count_failed(self.outcomes@)
    }

    /// A tally of no entries.
    pub fn new() -> (r: BatchTally)
        ensures
            r.wf(),
            r@ == Seq::<bool>::empty(),
    {
        BatchTally { processed: 0, failed: 0, outcomes: Ghost(Seq::empty()) }
    }

    /// The number of files converted.
    pub fn processed(&self) -> (r: u64)
        requires
            self.wf(),
        ensures
            r == count_converted(self@),
    {
        self.processed
    }

    /// The number of entries that failed.
    pub fn failed(&self) -> (r: u64)
        requires
            self.wf(),
        ensures
            r == count_failed(self@),
    {
        self.failed
    }

    /// Records the outcome of one entry: `converted` for a file written in
    /// full, else a failure that the batch goes on after.
    pub fn record(&mut self, converted: bool)
        requires
            old(self).wf(),
            old(self)@.len() < u64::MAX,
        ensures
            final(self).wf(),
            final(self)@ == old(self)@.push(converted),
    {
        proof {
            lemma_counts_sum(self.outcomes@);
        }
        let ghost pre = self.outcomes@;
        if converted {
            self.processed = self.processed + 1;
        } else {
            self.failed = self.failed + 1;
        }
        self.outcomes = Ghost(pre.push(converted));
        assert(self.outcomes@.drop_last() =~= pre);
    }

    /// The batch's verdict once every entry was visited: success exactly
    /// when no entry failed, else the number that failed.
    pub fn finish(&self) -> (r: Result<(), BatchError>)
        requires
            self.wf(),
        ensures
            count_failed(self@) == 0 ==> r is Ok,
            count_failed(self@) > 0 ==> r == Err::<(), BatchError>(
                BatchError::FilesFailed { count: count_failed(self@) as u64 },
            ),
    {
        if self.failed > 0 {
            Err(BatchError::FilesFailed { count: self.failed })
        } else {
            Ok(())
        }
    }
}

/// Every outcome counts once, as converted or as failed.
pub proof fn lemma_counts_sum(outcomes: Seq<bool>)
    ensures
        count_converted(outcomes) + count_failed(outcomes) == outcomes.len(),
    decreases outcomes.len(),
{
    if outcomes.len() > 0 {
        lemma_counts_sum(outcomes.drop_last());
    }
}

/// A batch succeeds exactly when every entry it tried converted, and then
/// each of them counts as converted.
pub proof fn lemma_batch_succeeds_iff_all_converted(outcomes: Seq<bool>)
    ensures
        (count_failed(outcomes) == 0) <==> (forall|i: int|
            0 <= i < outcomes.len() ==> #[trigger] outcomes[i]),
        count_failed(outcomes) == 0 ==> count_converted(outcomes) == outcomes.len(),
    decreases outcomes.len(),
{
    lemma_counts_sum(outcomes);
    if outcomes.len() > 0 {
        let pre = outcomes.drop_last();
        lemma_batch_succeeds_iff_all_converted(pre);
        if count_failed(outcomes) == 0 {
            assert forall|i: int| 0 <= i < outcomes.len() implies #[trigger] outcomes[i] by {
                if i < pre.len() {
                    assert(outcomes[i] == pre[i]);
                }
            }
        } else if outcomes.last() {
            let k = choose|k: int| 0 <= k < pre.len() && !pre[k];
            assert(outcomes[k] == pre[k]);
        }
    }
}

/// One entry that fails makes the batch fail, and takes nothing from the
/// others: the files converted are those that would be converted without it.
pub proof fn lemma_failure_isolated(outcomes: Seq<bool>, i: int)
    requires
        0 <= i < outcomes.len(),
        !outcomes[i],
    ensures
        count_failed(outcomes) > 0,
        count_converted(outcomes) == count_converted(outcomes.remove(i)),
        count_failed(outcomes) == count_failed(outcomes.remove(i)) + 1,
    decreases outcomes.len(),
{
    let pre = outcomes.drop_last();
    if i == outcomes.len() - 1 {
        assert(outcomes.remove(i) =~= pre);
    } else {
        lemma_failure_isolated(pre, i);
        let rem = outcomes.remove(i);
        assert(rem.drop_last() =~= pre.remove(i));
        assert(rem.last() == outcomes.last());
    }
}

} // verus!
