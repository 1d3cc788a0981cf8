//! Decisions of the fetch orchestrator. The caller performs each download,
//! each pause and the external download tool; the functions here decide
//! what to do with each outcome and what the batch amounts to.

use crate::error::CompliantError;
use crate::text::{decimal, push_decimal};
use vstd::prelude::*;
use vstd::string::*;

verus! {

/// `2` to the power `n`.
pub open spec fn pow2(n: nat) -> nat
    decreases n,
{
    if n == 0 {
        1
    } else {
        2 * pow2((n - 1) as nat)
    }
}

/// How the files of a repository are downloaded: how many at once, and how
/// failed downloads are retried.
#[derive(Debug, Clone, Copy)]
pub struct FetchPolicy {
    /// Downloads in flight at once.
    pub max_concurrent: usize,
    /// Retries after the first attempt of one file.
    pub max_retries: u32,
    /// The pause before the first retry, in milliseconds; it doubles with
    /// each further retry.
    pub base_delay_ms: u64,
    /// The pause after each successful download, in milliseconds.
    pub settle_delay_ms: u64,
}

impl FetchPolicy {
    /// Every pause that the policy can ask for fits in a `u64`.
    pub open spec fn wf(&self) -> bool {
        self.base_delay_ms * pow2(self.max_retries as nat) <= u64::MAX
    }

    /// The pause before retry number `k + 1`.
    pub open spec fn delay_before_retry(&self, k: nat) -> nat {
        (self.base_delay_ms * pow2(k)) as nat
    }

    /// Ten downloads at once, two retries starting at one second, and half a
    /// second between successful downloads.
    pub fn standard() -> (r: FetchPolicy)
        ensures
            r.max_concurrent == 10,
            r.max_retries == 2,
            r.base_delay_ms == 1000,
            r.settle_delay_ms == 500,
            r.wf(),
    {
        proof {
            reveal_with_fuel(pow2, 3);
        }
        FetchPolicy { max_concurrent: 10, max_retries: 2, base_delay_ms: 1000, settle_delay_ms: 500 }
    }
}

/// Where the download of one file stands: how many retries were made and
/// the pause that the next retry waits for.
#[derive(Debug, Clone, Copy)]
pub struct DownloadState {
    pub retries: u32,
    pub next_delay_ms: u64,
}

impl DownloadState {
    /// The state agrees with `policy` after `retries` retries.
    pub open spec fn wf(&self, policy: FetchPolicy) -> bool {
        &&& self.retries <= policy.max_retries
        &&& self.next_delay_ms == policy.delay_before_retry(self.retries as nat)
    }

    /// The state before the first attempt.
    pub fn start(policy: &FetchPolicy) -> (r: DownloadState)
        ensures
            r.retries == 0,
            policy.wf() ==> r.wf(*policy),
    {
        proof {
            assert(pow2(0) == 1);
            assert(policy.base_delay_ms * pow2(0) == policy.base_delay_ms);
        }
        DownloadState { retries: 0, next_delay_ms: policy.base_delay_ms }
    }
}

/// How one download attempt ended.
#[derive(Debug, Clone, Copy, PartialEq, Eq, Structural)]
pub enum AttemptOutcome {
    Downloaded,
    /// The request itself failed.
    RequestFailed,
    /// Any other failure.
    OtherFailure,
}

/// What to do after an attempt.
#[derive(Debug, Clone, Copy, PartialEq, Eq, Structural)]
pub enum DownloadAction {
    /// The file is settled as a success; pause this long before going on.
    Succeed { pause_ms: u64 },
    /// Pause this long, then try again.
    Retry { delay_ms: u64 },
    /// The file is settled as a failure.
    Fail,
}

/// `pattern` occurs in `s` at some position.
pub open spec fn occurs_in(pattern: Seq<char>, s: Seq<char>) -> bool {
    exists|i: int| 0 <= i <= s.len() - pattern.len() && #[trigger] s.subrange(i, i + pattern.len()) == pattern
}

/// The file name of a package's init marker.
pub open spec fn init_marker() -> Seq<char> {
    seq!['_', '_', 'i', 'n', 'i', 't', '_', '_', '.', 'p', 'y']
}

/// Whether `pattern` occurs in `s`.
pub fn contains_str(s: &str, pattern: &str) -> (r: bool)
    ensures
        r == occurs_in(pattern@, s@),
{
    let n = s.unicode_len();
    let m = pattern.unicode_len();
    if m > n {
        return false;
    }
    let mut i: usize = 0;
    while i <= n - m
        invariant
            n == s@.len(),
            m == pattern@.len(),
            m <= n,
            i <= n - m + 1,
            forall|k: int| 0 <= k < i ==> #[trigger] s@.subrange(k, k + m) != pattern@,
        decreases n - m + 1 - i,
    {
        let mut j: usize = 0;
        let mut same = true;
        while j < m
            invariant
                n == s@.len(),
                m == pattern@.len(),
                i + m <= n,
                j <= m,
                same == forall|t: int| 0 <= t < j ==> s@[i + t] == pattern@[t],
            decreases m - j,
        {
            if s.get_char(i + j) != pattern.get_char(j) {
                same = false;
            }
            j = j + 1;
        }
        if same {
            proof {
                assert(s@.subrange(i as int, i + m) =~= pattern@);
            }
            return true;
        }
        proof {
            assert(!(forall|t: int| 0 <= t < m ==> s@[i + t] == pattern@[t]));
            let t = choose|t: int| 0 <= t < m && s@[i + t] != pattern@[t];
            assert(s@.subrange(i as int, i + m)[t] != pattern@[t]);
        }
        i = i + 1;
    }
    false
}

/// Whether a failure of this file is tolerated: a failed request for an
/// init marker, which may be legitimately empty upstream.
pub fn is_tolerated_failure(file_name: &str, outcome: AttemptOutcome) -> (r: bool)
    ensures
        r == (outcome == AttemptOutcome::RequestFailed && occurs_in(init_marker(), file_name@)),
{
    let marker = "__init__.py";
    proof {
        reveal_strlit("__init__.py");
        assert(marker@ =~= init_marker());
    }
    outcome == AttemptOutcome::RequestFailed && contains_str(file_name, marker)
}

/// The step after one download attempt of `file_name`: a success settles
/// the file and pauses; a tolerated failure settles it at once; another
/// failure is retried after an exponentially growing pause until the
/// retries are used up, and then settles the file as failed.
pub fn next_download_action(
    policy: &FetchPolicy,
    state: DownloadState,
    file_name: &str,
    outcome: AttemptOutcome,
) -> (r: (DownloadState, DownloadAction))
    requires
        policy.wf(),
        state.wf(*policy),
    ensures
        outcome == AttemptOutcome::Downloaded ==> r.1 == (DownloadAction::Succeed {
            pause_ms: policy.settle_delay_ms,
        }),
        outcome != AttemptOutcome::Downloaded && is_tolerated_failure_spec(file_name@, outcome)
            ==> r.1 == (DownloadAction::Succeed { pause_ms: 0 }),
        outcome != AttemptOutcome::Downloaded && !is_tolerated_failure_spec(file_name@, outcome)
            && state.retries < policy.max_retries ==> r.1 == (DownloadAction::Retry {
            delay_ms: state.next_delay_ms,
        }) && r.0.retries == state.retries + 1,
        outcome != AttemptOutcome::Downloaded && !is_tolerated_failure_spec(file_name@, outcome)
            && state.retries >= policy.max_retries ==> r.1 == DownloadAction::Fail,
        r.1 is Retry ==> r.0.wf(*policy),
        !(r.1 is Retry) ==> r.0 == state,
{
    if outcome == AttemptOutcome::Downloaded {
        return (state, DownloadAction::Succeed { pause_ms: policy.settle_delay_ms });
    }
    if is_tolerated_failure(file_name, outcome) {
        return (state, DownloadAction::Succeed { pause_ms: 0 });
    }
    if state.retries < policy.max_retries {
        proof {
            lemma_pow2_mono((state.retries + 1) as nat, policy.max_retries as nat);
            assert(policy.base_delay_ms * pow2((state.retries + 1) as nat) <= policy.base_delay_ms
                * pow2(policy.max_retries as nat)) by (nonlinear_arith)
                requires
                    pow2((state.retries + 1) as nat) <= pow2(policy.max_retries as nat),
            ;
            assert(pow2((state.retries + 1) as nat) == 2 * pow2(state.retries as nat));
            assert(policy.base_delay_ms * pow2((state.retries + 1) as nat) == 2 * (
            policy.base_delay_ms * pow2(state.retries as nat))) by (nonlinear_arith)
                requires
                    pow2((state.retries + 1) as nat) == 2 * pow2(state.retries as nat),
            ;
        }
        let next = DownloadState {
            retries: state.retries + 1,
            next_delay_ms: state.next_delay_ms * 2,
        };
        (next, DownloadAction::Retry { delay_ms: state.next_delay_ms })
    } else {
        (state, DownloadAction::Fail)
    }
}

/// Whether a failure of this file is tolerated (see `is_tolerated_failure`).
pub open spec fn is_tolerated_failure_spec(file_name: Seq<char>, outcome: AttemptOutcome) -> bool {
    outcome == AttemptOutcome::RequestFailed && occurs_in(init_marker(), file_name)
}

proof fn lemma_pow2_mono(a: nat, b: nat)
    requires
        a <= b,
    ensures
        pow2(a) <= pow2(b),
    decreases b,
{
    if a < b {
        lemma_pow2_mono(a, (b - 1) as nat);
    }
}

/// How many entries of `s` are `true`.
pub open spec fn count_true(s: Seq<bool>) -> nat
    decreases s.len(),
{
    if s.len() == 0 {
        0
    } else {
        count_true(s.drop_last()) + if s.last() {
            1nat
        } else {
            0nat
        }
    }
}

proof fn lemma_count_true_bound(s: Seq<bool>)
    ensures
        count_true(s) <= s.len(),
        count_true(s) == 0 ==> forall|i: int| 0 <= i < s.len() ==> !s[i],
    decreases s.len(),
{
    if s.len() > 0 {
        lemma_count_true_bound(s.drop_last());
        assert forall|i: int| 0 <= i < s.len() - 1 implies s.drop_last()[i] == s[i] by {}
    }
}

/// How a batch of downloads ended.
#[derive(Debug, Clone, Copy, PartialEq, Eq, Structural)]
pub struct BatchSummary {
    pub succeeded: usize,
    pub failed: usize,
}

/// The message of a batch in which every download failed.
pub open spec fn all_failed_message(count: nat, repo_id: Seq<char>) -> Seq<char> {
    "All "@ + decimal(count) + " downloads failed for repository "@ + repo_id
}

/// The verdict on a batch of settled downloads, one entry per file, `true`
/// for a success: the batch fails only when files failed and none
/// succeeded; otherwise it reports both counts.
pub fn summarize_batch(settled: &Vec<bool>, repo_id: &str) -> (r: Result<BatchSummary, CompliantError>)
    ensures
        r is Err <==> settled@.len() > 0 && count_true(settled@) == 0,
        r matches Ok(b) ==> b.succeeded == count_true(settled@) && b.failed == settled@.len()
            - count_true(settled@),
        r matches Err(e) ==> e matches CompliantError::FetchError(m) && m@ == all_failed_message(
            settled@.len(),
            repo_id@,
        ),
{
    let mut succeeded: usize = 0;
    let mut i: usize = 0;
    while i < settled.len()
        invariant
            i <= settled@.len(),
            succeeded == count_true(settled@.take(i as int)),
            succeeded <= i,
        decreases settled@.len() - i,
    {
        proof {
            assert(settled@.take(i + 1).drop_last() =~= settled@.take(i as int));
        }
        if settled[i] {
            succeeded = succeeded + 1;
        }
        i = i + 1;
    }
    proof {
        assert(settled@.take(settled@.len() as int) =~= settled@);
        lemma_count_true_bound(settled@);
    }
    let failed = settled.len() - succeeded;
    if failed > 0 && succeeded == 0 {
        let mut m = String::from_str("All ");
        push_decimal(&mut m, failed);
        m.append(" downloads failed for repository ");
        m.append(repo_id);
        Err(CompliantError::FetchError(m))
    } else {
        Ok(BatchSummary { succeeded, failed })
    }
}

/// The arguments of the external download tool for one repository.
pub fn delegated_download_args(repo_id: &str, revision: &str, force: bool) -> (r: Vec<String>)
    ensures
        r@.len() == if force {
            5nat
        } else {
            4nat
        },
        r@[0]@ == "download"@,
        r@[1]@ == repo_id@,
        r@[2]@ == "--revision"@,
        r@[3]@ == revision@,
        force ==> r@[4]@ == "--force"@,
{
    let mut args: Vec<String> = Vec::new();
    args.push(String::from_str("download"));
    args.push(String::from_str(repo_id));
    args.push(String::from_str("--revision"));
    args.push(String::from_str(revision));
    if force {
        args.push(String::from_str("--force"));
    }
    args
}

/// The verdict on a run of the external download tool: a nonzero exit is a
/// failure that carries what the tool wrote to its error stream.
pub fn delegated_outcome(exit_success: bool, repo_id: &str, error_output: &str) -> (r: Result<
    (),
    CompliantError,
>)
    ensures
        r is Ok <==> exit_success,
        r matches Err(e) ==> e matches CompliantError::FetchError(m) && m@ == "Failed to download repository "@
            + repo_id@ + ": "@ + error_output@,
{
    if exit_success {
        Ok(())
    } else {
        let mut m = String::from_str("Failed to download repository ");
        m.append(repo_id);
        m.append(": ");
        m.append(error_output);
        Err(CompliantError::FetchError(m))
    }
}

} // verus!
