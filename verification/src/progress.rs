use vstd::prelude::*;

verus! {

/// What is handed to the progress sink: the percentage reached, the number
/// of files processed so far and the number expected in all.
#[derive(Clone, Copy, Debug, PartialEq, Eq, Structural)]
pub struct ProgressReport {
    pub percent: usize,
    pub copied: usize,
    pub total: usize,
}

/// The share of `total` that `copied` files make, in whole percent.
pub open spec fn percent_of(copied: nat, total: nat) -> nat
    recommends
        total > 0,
{
    copied * 100 / total
}

/// The share never falls when one more file is processed.
pub proof fn lemma_percent_monotonic(a: nat, b: nat, total: nat)
    requires
        a <= b,
        total > 0,
    ensures
        percent_of(a, total) <= percent_of(b, total),
{
    assert(a * 100 <= b * 100) by (nonlinear_arith)
        requires
            a <= b,
    ;
    vstd::arithmetic::div_mod::lemma_div_is_ordered(a as int * 100, b as int * 100, total as int);
}

/// The rule of reporting: a percentage is reported only when it exceeds the
/// last one reported, which it then replaces.
pub fn print_progress(copied_files: usize, total_files: usize, last_printed_percent: &mut usize)
    -> (report: Option<ProgressReport>)
    requires
        total_files > 0,
        copied_files * 100 <= usize::MAX,
    ensures
        match report {
            Some(r) => r.percent == percent_of(copied_files as nat, total_files as nat)
                && r.copied == copied_files && r.total == total_files && r.percent > *old(
                last_printed_percent,
            ) && *final(last_printed_percent) == r.percent,
            None => percent_of(copied_files as nat, total_files as nat) <= *old(
                last_printed_percent,
            ) && *final(last_printed_percent) == *old(last_printed_percent),
        },
{
    let percent = copied_files * 100 / total_files;
    if percent > *last_printed_percent {
        *last_printed_percent = percent;
        Some(ProgressReport { percent, copied: copied_files, total: total_files })
    } else {
        None
    }
}

/// The counters that every finished copy updates, as mathematical values,
/// with the percentages reported so far, oldest first.
pub struct ProgressModel {
    pub copied: nat,
    pub last_percent: nat,
    pub reported: Seq<nat>,
}

impl ProgressModel {
    /// The percentages reported rise strictly, and the last of them is the
    /// one the state remembers.
    pub open spec fn wf(self) -> bool {
        &&& forall|i: int, j: int|
            0 <= i < j < self.reported.len() ==> self.reported[i] < self.reported[j]
        &&& forall|i: int| 0 <= i < self.reported.len() ==> 0 < #[trigger] self.reported[i]
        &&& self.last_percent == if self.reported.len() == 0 {
            0
        } else {
            self.reported.last()
        }
    }

    /// The state after one more file was processed.
    pub open spec fn recorded(self, total: nat, verbose: bool) -> ProgressModel {
        let percent = percent_of(self.copied + 1, total);
        if verbose && percent > self.last_percent {
            ProgressModel {
                copied: self.copied + 1,
                last_percent: percent,
                reported: self.reported.push(percent),
            }
        } else {
            ProgressModel { copied: self.copied + 1, ..self }
        }
    }

    /// What processing one more file hands to the sink.
    pub open spec fn report(self, total: nat, verbose: bool) -> Option<ProgressReport> {
        let percent = percent_of(self.copied + 1, total);
        if verbose && percent > self.last_percent {
            Some(
                ProgressReport {
                    percent: percent as usize,
                    copied: (self.copied + 1) as usize,
                    total: total as usize,
                },
            )
        } else {
            None
        }
    }
}

/// The shared progress counters of one run.
pub struct ProgressState {
    copied_count: usize,
    last_reported_percent: usize,
    reported: Ghost<Seq<nat>>,
}

impl View for ProgressState {
    type V = ProgressModel;

    closed spec fn view(&self) -> ProgressModel {
        ProgressModel {
            copied: self.copied_count as nat,
            last_percent: self.last_reported_percent as nat,
            reported: self.reported@,
        }
    }
}

impl ProgressState {
    /// The counters at the start of a run: nothing processed, nothing
    /// reported.
    pub fn new() -> (state: ProgressState)
        ensures
            state@ == (ProgressModel { copied: 0, last_percent: 0, reported: Seq::empty() }),
            state@.wf(),
    {
        ProgressState { copied_count: 0, last_reported_percent: 0, reported: Ghost(Seq::empty()) }
    }

    /// Number of files processed so far, failed copies included.
    pub fn copied_count(&self) -> (n: usize)
        ensures
            n == self@.copied,
    {
        self.copied_count
    }

    /// The last percentage handed to the sink, 0 before the first.
    pub fn last_reported_percent(&self) -> (n: usize)
        ensures
            n == self@.last_percent,
    {
        self.last_reported_percent
    }

    /// Counts one more processed file and tells what to report, if
    /// anything. Counting and the comparison with the last report are one
    /// step, so no percentage is reported twice.
    pub fn record(&mut self, total_files: usize, verbose: bool) -> (report: Option<
        ProgressReport,
    >)
        requires
            old(self)@.wf(),
            total_files > 0,
            (old(self)@.copied + 1) * 100 <= usize::MAX,
        ensures
            final(self)@ == old(self)@.recorded(total_files as nat, verbose),
            report == old(self)@.report(total_files as nat, verbose),
            final(self)@.wf(),
    {
        self.copied_count = self.copied_count + 1;
        if verbose {
            let report = print_progress(
                self.copied_count,
                total_files,
                &mut self.last_reported_percent,
            );
            proof {
                if report is Some {
                    self.reported@ = self.reported@.push(self.last_reported_percent as nat);
                }
            }
            report
        } else {
            None
        }
    }
}

/// The percentages handed to the sink rise strictly: none comes twice and
/// none comes after a greater one.
pub proof fn lemma_reports_strictly_increasing(state: ProgressModel, i: int, j: int)
    requires
        state.wf(),
        0 <= i < j < state.reported.len(),
    ensures
        state.reported[i] < state.reported[j],
{
}

} // verus!
