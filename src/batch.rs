//! The batch conversion orchestrator: per-item destinations, progress
//! notifications in a fixed order, and failures that never stop the batch.
//!
//! The orchestrator decides; its driver runs the engine. A `BatchRun` hands
//! out one `ConversionTask` at a time together with its `converting`
//! notification, and turns the outcome of that task into the closing
//! notification.

use vstd::prelude::*;
use crate::path::{opt_view, output_path, output_path_spec, views};
use crate::platform::Platform;

verus! {

/// The state a progress notification reports.
#[derive(Clone, Copy, Debug, PartialEq, Eq, Structural)]
pub enum Status {
    Converting,
    Completed,
    Error,
}

impl Status {
    /// The tag under which the status is published.
    pub fn as_str(&self) -> (r: &'static str)
        ensures
            r@ == status_tag(*self),
    {
        match self {
            Status::Converting => "converting",
            Status::Completed => "completed",
            Status::Error => "error",
        }
    }
}

/// The published tag of each status.
pub open spec fn status_tag(s: Status) -> Seq<char> {
    match s {
        Status::Converting => "converting"@,
        Status::Completed => "completed"@,
        Status::Error => "error"@,
    }
}

/// One progress notification, as the host shell receives it.
#[derive(Clone, Debug)]
pub struct ConversionProgress {
    pub file_path: String,
    pub output_path: Option<String>,
    pub progress: u32,
    pub status: Status,
    pub error: Option<String>,
}

/// The mathematical content of a progress notification.
pub struct ProgressView {
    pub file: Seq<char>,
    pub output: Option<Seq<char>>,
    pub percent: nat,
    pub status: Status,
    pub error: Option<Seq<char>>,
}

impl View for ConversionProgress {
    type V = ProgressView;

    open spec fn view(&self) -> ProgressView {
        ProgressView {
            file: self.file_path@,
            output: opt_view(self.output_path),
            percent: self.progress as nat,
            status: self.status,
            error: opt_view(self.error),
        }
    }
}

/// One unit of work: the document to convert and where its PDF goes.
#[derive(Clone, Debug)]
pub struct ConversionTask {
    pub input: String,
    pub output: String,
}

/// Share of the batch already finished when item `i` of `n` starts:
/// `floor(i / n * 100)`.
pub open spec fn percent_spec(i: nat, n: nat) -> nat
    recommends
        n > 0,
{
    (i * 100) / n
}

/// The notification sent when item `i` starts.
pub open spec fn converting_view(
    p: Platform,
    files: Seq<Seq<char>>,
    dir: Option<Seq<char>>,
    i: nat,
) -> ProgressView {
    ProgressView {
        file: files[i as int],
        output: Some(output_path_spec(p, files[i as int], dir)),
        percent: percent_spec(i, files.len()),
        status: Status::Converting,
        error: None,
    }
}

/// The notification that closes item `i`, given its outcome: `None` for a
/// conversion that succeeded, `Some(message)` for one that failed.
pub open spec fn outcome_view(
    p: Platform,
    files: Seq<Seq<char>>,
    dir: Option<Seq<char>>,
    i: nat,
    outcome: Option<Seq<char>>,
) -> ProgressView {
    match outcome {
        None => ProgressView {
            file: files[i as int],
            output: Some(output_path_spec(p, files[i as int], dir)),
            percent: 100,
            status: Status::Completed,
            error: None,
        },
        Some(msg) => ProgressView {
            file: files[i as int],
            output: None,
            percent: 0,
            status: Status::Error,
            error: Some(msg),
        },
    }
}

/// Every notification of a batch whose first `outcomes.len()` items have
/// finished with the given outcomes, in the order they are sent.
pub open spec fn batch_log(
    p: Platform,
    files: Seq<Seq<char>>,
    dir: Option<Seq<char>>,
    outcomes: Seq<Option<Seq<char>>>,
) -> Seq<ProgressView>
    decreases outcomes.len(),
{
    if outcomes.len() == 0 {
        Seq::empty()
    } else {
        let k = (outcomes.len() - 1) as nat;
        batch_log(p, files, dir, outcomes.drop_last()).push(converting_view(p, files, dir, k)).push(
            outcome_view(p, files, dir, k, outcomes.last()),
        )
    }
}

/// The outcome of a conversion as `outcome_view` takes it.
pub open spec fn outcome_spec(outcome: Result<(), String>) -> Option<Seq<char>> {
    match outcome {
        Ok(_) => None,
        Err(m) => Some(m@),
    }
}

/// Notifications come in item order, two per item and never interleaved:
/// `converting` for item `i` at index `2i`, then its closing notification
/// (`completed` or `error`, by its outcome) at index `2i + 1`, for every
/// finished item whatever the outcomes of the others.
pub proof fn lemma_batch_log_order(
    p: Platform,
    files: Seq<Seq<char>>,
    dir: Option<Seq<char>>,
    outcomes: Seq<Option<Seq<char>>>,
)
    ensures
        batch_log(p, files, dir, outcomes).len() == 2 * outcomes.len(),
        forall|i: int|
            0 <= i < outcomes.len() ==> {
                &&& #[trigger] batch_log(p, files, dir, outcomes)[2 * i] == converting_view(
                    p,
                    files,
                    dir,
                    i as nat,
                )
                &&& batch_log(p, files, dir, outcomes)[2 * i + 1] == outcome_view(
                    p,
                    files,
                    dir,
                    i as nat,
                    outcomes[i],
                )
            },
    decreases outcomes.len(),
{
    if outcomes.len() > 0 {
        let prev = outcomes.drop_last();
        lemma_batch_log_order(p, files, dir, prev);
        assert forall|i: int| 0 <= i < prev.len() implies prev[i] == outcomes[i] by {}
    }
}

/// Item `i` of `n` starts at `floor(i * 100 / n)` percent, which grows with
/// `i` and stays below 100, so the last item starts short of completion.
pub proof fn lemma_converting_percent(i: nat, j: nat, n: nat)
    requires
        i <= j < n,
    ensures
        percent_spec(i, n) <= percent_spec(j, n),
        percent_spec(j, n) < 100,
        percent_spec(i, n) * n <= i * 100 < (percent_spec(i, n) + 1) * n,
{
    assert(percent_spec(i, n) <= percent_spec(j, n)) by (nonlinear_arith)
        requires
            i <= j < n,
    ;
    assert(percent_spec(j, n) < 100) by (nonlinear_arith)
        requires
            j < n,
    ;
    assert(percent_spec(i, n) * n <= i * 100 < (percent_spec(i, n) + 1) * n) by (nonlinear_arith)
        requires
            n > 0,
    ;
}

/// `floor(i * 100 / n)` for item `i` of a batch of `n`.
pub fn converting_percent(i: usize, n: usize) -> (r: u32)
    requires
        i < n,
    ensures
        r as nat == percent_spec(i as nat, n as nat),
        r < 100,
{
    let p: u128 = (i as u128) * 100 / (n as u128);
    assert((i as int) * 100 / (n as int) < 100) by (nonlinear_arith)
        requires
            i < n,
    ;
    p as u32
}

/// The message of a conversion whose engine exited with failure: both
/// captured streams, verbatim.
pub fn failure_message(stdout: &str, stderr: &str) -> (r: String)
    ensures
        r@ == failure_message_spec(stdout@, stderr@),
{
    String::from_str("LibreOffice conversion failed:\nstdout: ").concat(stdout).concat(
        "\nstderr: ",
    ).concat(stderr)
}

/// The text of `failure_message`.
pub open spec fn failure_message_spec(stdout: Seq<char>, stderr: Seq<char>) -> Seq<char> {
    "LibreOffice conversion failed:\nstdout: "@ + stdout + "\nstderr: "@ + stderr
}

/// A failed conversion's message holds the engine's standard output and its
/// standard error, each verbatim and in that order.
pub proof fn lemma_failure_message_holds_streams(stdout: Seq<char>, stderr: Seq<char>)
    ensures
        ({
            let m = failure_message_spec(stdout, stderr);
            let a: int = "LibreOffice conversion failed:\nstdout: "@.len() as int;
            let b: int = a + stdout.len() + "\nstderr: "@.len();
            &&& m.subrange(a, a + stdout.len()) == stdout
            &&& m.subrange(b, b + stderr.len()) == stderr
            &&& b + stderr.len() == m.len()
        }),
{
    let m = failure_message_spec(stdout, stderr);
    let p = "LibreOffice conversion failed:\nstdout: "@;
    let q = "\nstderr: "@;
    let a: int = p.len() as int;
    let b: int = a + stdout.len() + q.len();
    assert(m.subrange(a, a + stdout.len()) =~= stdout);
    assert(m.subrange(b, b + stderr.len()) =~= stderr);
}

/// A batch in progress: the inputs, the optional output directory, and how
/// far the conversion has come.
pub struct BatchRun {
    platform: Platform,
    files: Vec<String>,
    output_dir: Option<String>,
    next: usize,
    current: Option<String>,
    outcomes: Ghost<Seq<Option<Seq<char>>>>,
}

impl BatchRun {
    /// The inputs, in order.
    pub closed spec fn files(&self) -> Seq<Seq<char>> {
        views(self.files@)
    }

    /// The platform whose path rules the destinations follow.
    pub closed spec fn platform(&self) -> Platform {
        self.platform
    }

    /// The output directory, if one was given.
    pub closed spec fn dir(&self) -> Option<Seq<char>> {
        opt_view(self.output_dir)
    }

    /// The outcomes of the items that have finished, in order.
    pub closed spec fn outcomes(&self) -> Seq<Option<Seq<char>>> {
        self.outcomes@
    }

    /// Whether an item has started and not yet finished.
    pub closed spec fn busy(&self) -> bool {
        self.current is Some
    }

    /// Every notification sent so far, in order.
    pub open spec fn log(&self) -> Seq<ProgressView> {
        let done = batch_log(self.platform(), self.files(), self.dir(), self.outcomes());
        if self.busy() {
            done.push(converting_view(self.platform(), self.files(), self.dir(), self.outcomes().len()))
        } else {
            done
        }
    }

    /// The state is consistent: the finished items are a prefix of the
    /// inputs, and an item in progress is the next one.
    pub closed spec fn wf(&self) -> bool {
        &&& self.next as nat == self.outcomes@.len()
        &&& self.next <= self.files.len()
        &&& self.current is Some ==> {
            &&& self.next < self.files.len()
            &&& self.current.unwrap()@ == output_path_spec(
                self.platform,
                self.files@[self.next as int]@,
                self.dir(),
            )
        }
    }

    /// Whether every item has finished.
    pub open spec fn done(&self) -> bool {
        !self.busy() && self.outcomes().len() == self.files().len()
    }

    /// A batch over `files`, with nothing started.
    pub fn new(platform: Platform, files: Vec<String>, output_dir: Option<String>) -> (r: BatchRun)
        ensures
            r.platform() == platform,
            r.wf(),
            r.files() == views(files@),
            r.dir() == opt_view(output_dir),
            r.outcomes().len() == 0,
            !r.busy(),
            r.log().len() == 0,
    {
        BatchRun { platform, files, output_dir, next: 0, current: None, outcomes: Ghost(Seq::empty()) }
    }

    /// Once every item has finished, the notifications sent are exactly the
    /// batch's full log: `converting` then the closing notification for each
    /// item in input order, two per item.
    pub proof fn lemma_finished_run_order(&self)
        requires
            self.wf(),
            self.done(),
        ensures
            self.log() == batch_log(self.platform(), self.files(), self.dir(), self.outcomes()),
            self.log().len() == 2 * self.files().len(),
            forall|i: int|
                0 <= i < self.files().len() ==> {
                    &&& #[trigger] self.log()[2 * i] == converting_view(
                        self.platform(),
                        self.files(),
                        self.dir(),
                        i as nat,
                    )
                    &&& self.log()[2 * i + 1] == outcome_view(
                        self.platform(),
                        self.files(),
                        self.dir(),
                        i as nat,
                        self.outcomes()[i],
                    )
                },
    {
        lemma_batch_log_order(self.platform(), self.files(), self.dir(), self.outcomes());
    }

    /// Whether an item has started and not yet finished.
    pub fn in_progress(&self) -> (r: bool)
        ensures
            r == self.busy(),
    {
        self.current.is_some()
    }

    /// Starts the next item: its task and its `converting` notification, or
    /// `None` once every item has finished.
    pub fn start_next(&mut self) -> (r: Option<(ConversionTask, ConversionProgress)>)
        requires
            old(self).wf(),
            !old(self).busy(),
        ensures
            final(self).wf(),
            final(self).platform() == old(self).platform(),
            final(self).files() == old(self).files(),
            final(self).dir() == old(self).dir(),
            final(self).outcomes() == old(self).outcomes(),
            old(self).outcomes().len() < old(self).files().len() <==> r is Some,
            match r {
                Some((task, notice)) => {
                    let i = old(self).outcomes().len();
                    &&& task.input@ == old(self).files()[i as int]
                    &&& task.output@ == output_path_spec(
                        old(self).platform(),
                        task.input@,
                        old(self).dir(),
                    )
                    &&& notice@ == converting_view(
                        old(self).platform(),
                        old(self).files(),
                        old(self).dir(),
                        i,
                    )
                    &&& final(self).busy()
                    &&& final(self).log() == old(self).log().push(notice@)
                },
                None => *final(self) == *old(self),
            },
    {
        if self.next >= self.files.len() {
            return None;
        }
        let i = self.next;
        let input = self.files[i].clone();
        let out = match &self.output_dir {
            Some(d) => output_path(self.platform, input.as_str(), Some(d.as_str())),
            None => output_path(self.platform, input.as_str(), None),
        };
        let percent = converting_percent(i, self.files.len());
        let notice = ConversionProgress {
            file_path: input.clone(),
            output_path: Some(out.clone()),
            progress: percent,
            status: Status::Converting,
            error: None,
        };
        self.current = Some(out.clone());
        proof {
            assert(self.files()[i as int] == self.files@[i as int]@);
        }
        Some((ConversionTask { input, output: out }, notice))
    }

    /// Finishes the item in progress with `outcome` (`Ok` when the engine
    /// succeeded, else the failure's message) and returns its closing
    /// notification. The batch goes on to the next item either way.
    pub fn finish(&mut self, outcome: Result<(), String>) -> (r: ConversionProgress)
        requires
            old(self).wf(),
            old(self).busy(),
        ensures
            final(self).wf(),
            !final(self).busy(),
            final(self).platform() == old(self).platform(),
            final(self).files() == old(self).files(),
            final(self).dir() == old(self).dir(),
            final(self).outcomes() == old(self).outcomes().push(
                outcome_spec(outcome),
            ),
            r@ == outcome_view(
                old(self).platform(),
                old(self).files(),
                old(self).dir(),
                old(self).outcomes().len(),
                outcome_spec(outcome),
            ),
            final(self).log() == old(self).log().push(r@),
    {
        let i = self.next;
        let out = match self.current.take() {
            Some(o) => o,
            None => String::new(),
        };
        let input = self.files[i].clone();
        let ghost o = outcome_spec(outcome);
        let notice = match outcome {
            Ok(()) => ConversionProgress {
                file_path: input,
                output_path: Some(out),
                progress: 100,
                status: Status::Completed,
                error: None,
            },
            Err(m) => ConversionProgress {
                file_path: input,
                output_path: None,
                progress: 0,
                status: Status::Error,
                error: Some(m),
            },
        };
        self.next = i + 1;
        self.outcomes = Ghost(self.outcomes@.push(o));
        proof {
            assert(self.outcomes@.drop_last() =~= old(self).outcomes@);
        }
        notice
    }
}

} // verus!
