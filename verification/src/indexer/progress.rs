//! What to show while a knowledge base is indexed.
//!
//! A reporter decides for each event what is to be shown; showing it is left to the caller.
use vstd::prelude::*;

use crate::text;

verus! {

/// What the caller wants to see.
#[derive(Debug, Clone, Copy, PartialEq, Eq, Structural)]
pub enum ProgressMode {
    /// A line for each file.
    Verbose,
    /// Nothing.
    Quiet,
    /// A bar on a terminal, else a line now and then.
    Auto,
}

/// How a reporter shows things.
#[derive(Debug, Clone, Copy, PartialEq, Eq, Structural)]
pub enum ProgressState {
    Verbose,
    Quiet,
    /// Whether there is a terminal is not known yet.
    AutoPending,
    /// A bar on a terminal.
    Tty,
    /// A line each time another `step` of the `total` files are done.
    NonTty { total: u64, step: u64, count: u64 },
}

/// What is to be shown for an event.
#[derive(Debug, Clone)]
pub enum ProgressAction {
    Nothing,
    /// A line.
    Print { line: String },
    /// The bar moves on by one; its message changes where there is one.
    Tick { message: Option<String> },
    /// A line above the bar.
    PrintAboveBar { line: String },
}

/// What a [`ProgressAction`] holds.
pub enum ActionModel {
    Nothing,
    Print { line: Seq<char> },
    Tick { message: Option<Seq<char>> },
    PrintAboveBar { line: Seq<char> },
}

impl View for ProgressAction {
    type V = ActionModel;

    open spec fn view(&self) -> ActionModel {
        match self {
            ProgressAction::Nothing => ActionModel::Nothing,
            ProgressAction::Print { line } => ActionModel::Print { line: line@ },
            ProgressAction::Tick { message } => ActionModel::Tick {
                message: text::opt_view(*message),
            },
            ProgressAction::PrintAboveBar { line } => ActionModel::PrintAboveBar { line: line@ },
        }
    }
}

/// Whether a line is due after `count` of `total` files: at each full step, and at the end.
pub open spec fn should_emit_spec(count: nat, total: nat, step: nat) -> bool {
    total != 0 && count > 0 && ((step != 0 && count % step == 0) || count == total)
}

/// Whether a line is due after `count` of `total` files.
pub fn should_emit(count: u64, total: u64, step: u64) -> (r: bool)
    ensures
        r == should_emit_spec(count as nat, total as nat, step as nat),
{
    if total == 0 {
        return false;
    }
    count > 0 && ((step != 0 && count % step == 0) || count == total)
}

/// The step of a run over `total` files: a twentieth of them, and at least 1.
pub open spec fn step_spec(total: nat) -> nat {
    if total / 20 < 1 {
        1
    } else {
        total / 20
    }
}

/// The line that says how far a run has come.
pub open spec fn progress_line(count: nat, total: nat) -> Seq<char> {
    "Progress: "@ + text::decimal_spec(count) + "/"@ + text::decimal_spec(total) + " ("@
        + text::decimal_spec(count * 100 / total) + "%)"@
}

/// What is shown once `count` of `total` files are done.
pub open spec fn counted_action(count: nat, total: nat, step: nat) -> ActionModel {
    if should_emit_spec(count, total, step) {
        ActionModel::Print { line: progress_line(count, total) }
    } else {
        ActionModel::Nothing
    }
}

/// A reporter.
#[derive(Debug)]
pub struct ProgressReporter {
    pub state: ProgressState,
}

impl ProgressReporter {
    /// How many files a reporter that counts has counted.
    pub open spec fn counted(self) -> nat {
        match self.state {
            ProgressState::NonTty { count, .. } => count as nat,
            _ => 0,
        }
    }

    /// The state after one more file.
    pub open spec fn stepped(self) -> ProgressState {
        match self.state {
            ProgressState::NonTty { total, step, count } => ProgressState::NonTty {
                total,
                step,
                count: (count + 1) as u64,
            },
            other => other,
        }
    }

    /// A reporter for a mode.
    pub fn new(mode: ProgressMode) -> (r: Self)
        ensures
            r.state == match mode {
                ProgressMode::Verbose => ProgressState::Verbose,
                ProgressMode::Quiet => ProgressState::Quiet,
                ProgressMode::Auto => ProgressState::AutoPending,
            },
    {
        let state = match mode {
            ProgressMode::Verbose => ProgressState::Verbose,
            ProgressMode::Quiet => ProgressState::Quiet,
            ProgressMode::Auto => ProgressState::AutoPending,
        };
        ProgressReporter { state }
    }

    /// A reporter for the flags of the command line. Silence wins.
    pub fn from_cli_flags(quiet: bool, progress: bool) -> (r: Self)
        ensures
            r.state == if quiet {
                ProgressState::Quiet
            } else if progress {
                ProgressState::AutoPending
            } else {
                ProgressState::Verbose
            },
    {
        if quiet {
            ProgressReporter::new(ProgressMode::Quiet)
        } else if progress {
            ProgressReporter::new(ProgressMode::Auto)
        } else {
            ProgressReporter::new(ProgressMode::Verbose)
        }
    }

    /// Takes note of the number of files, and of whether there is a terminal. Returns the length
    /// of the bar to be shown, if one is. Without files there is nothing to show.
    pub fn start_indexing(&mut self, total: usize, is_tty: bool) -> (r: Option<u64>)
        ensures
            ({
                let resolves = total > 0 && old(self).state == ProgressState::AutoPending;
                &&& r == if resolves && is_tty {
                    Some(total as u64)
                } else {
                    None
                }
                &&& final(self).state == if !resolves {
                    old(self).state
                } else if is_tty {
                    ProgressState::Tty
                } else {
                    ProgressState::NonTty {
                        total: total as u64,
                        step: step_spec(total as nat) as u64,
                        count: 0,
                    }
                }
            }),
    {
        if total == 0 {
            return None;
        }
        match self.state {
            ProgressState::AutoPending => {
                let n: u64 = total as u64;
                if is_tty {
                    self.state = ProgressState::Tty;
                    Some(n)
                } else {
                    let step: u64 = if n / 20 < 1 {
                        1
                    } else {
                        n / 20
                    };
                    self.state = ProgressState::NonTty { total: n, step, count: 0 };
                    None
                }
            },
            _ => None,
        }
    }

    /// Counts one more file.
    fn count_one(&mut self) -> (r: ProgressAction)
        requires
            old(self).counted() < u64::MAX / 100,
        ensures
            final(self).state == old(self).stepped(),
            r@ == match old(self).state {
                ProgressState::NonTty { total, step, count } => counted_action(
                    (count + 1) as nat,
                    total as nat,
                    step as nat,
                ),
                _ => ActionModel::Nothing,
            },
    {
        match self.state {
            ProgressState::NonTty { total, step, count } => {
                let done: u64 = count + 1;
                self.state = ProgressState::NonTty { total, step, count: done };
                if should_emit(done, total, step) {
                    let mut line = text::copy("Progress: ");
                    line.append(text::decimal(done).as_str());
                    line.append("/");
                    line.append(text::decimal(total).as_str());
                    line.append(" (");
                    line.append(text::decimal(done * 100 / total).as_str());
                    line.append("%)");
                    ProgressAction::Print { line }
                } else {
                    ProgressAction::Nothing
                }
            },
            _ => ProgressAction::Nothing,
        }
    }

    /// A file was indexed into `chunks` chunks.
    pub fn report_indexed(&mut self, rel: &str, chunks: u32) -> (r: ProgressAction)
        requires
            old(self).counted() < u64::MAX / 100,
        ensures
            final(self).state == old(self).stepped(),
            ({
                let what = rel@ + " ("@ + text::decimal_spec(chunks as nat) + " chunks)"@;
                r@ == match old(self).state {
                    ProgressState::Verbose => ActionModel::Print { line: "  indexed: "@ + what },
                    ProgressState::Quiet => ActionModel::Nothing,
                    ProgressState::AutoPending => ActionModel::Nothing,
                    ProgressState::Tty => ActionModel::Tick { message: Some(what) },
                    ProgressState::NonTty { total, step, count } => counted_action(
                        (count + 1) as nat,
                        total as nat,
                        step as nat,
                    ),
                }
            }),
    {
        let mut what = text::copy(rel);
        what.append(" (");
        what.append(text::decimal(chunks as u64).as_str());
        what.append(" chunks)");
        match self.state {
            ProgressState::Verbose => {
                let mut line = text::copy("  indexed: ");
                line.append(what.as_str());
                ProgressAction::Print { line }
            },
            ProgressState::Tty => ProgressAction::Tick { message: Some(what) },
            _ => self.count_one(),
        }
    }

    /// A file was found unchanged, or was skipped. It counts, but is not spoken of.
    pub fn report_unchanged(&mut self, rel: &str) -> (r: ProgressAction)
        requires
            old(self).counted() < u64::MAX / 100,
        ensures
            final(self).state == old(self).stepped(),
            r@ == match old(self).state {
                ProgressState::Verbose => ActionModel::Nothing,
                ProgressState::Quiet => ActionModel::Nothing,
                ProgressState::AutoPending => ActionModel::Nothing,
                ProgressState::Tty => ActionModel::Tick { message: None },
                ProgressState::NonTty { total, step, count } => counted_action(
                    (count + 1) as nat,
                    total as nat,
                    step as nat,
                ),
            },
    {
        match self.state {
            ProgressState::Tty => ProgressAction::Tick { message: None },
            _ => self.count_one(),
        }
    }

    /// What is shown of an event that does not count.
    pub open spec fn aside(self, line: Seq<char>) -> ActionModel {
        match self.state {
            ProgressState::Verbose => ActionModel::Print { line },
            ProgressState::Tty => ActionModel::PrintAboveBar { line },
            _ => ActionModel::Nothing,
        }
    }

    fn say(&self, line: String) -> (r: ProgressAction)
        ensures
            r@ == self.aside(line@),
    {
        match self.state {
            ProgressState::Verbose => ProgressAction::Print { line },
            ProgressState::Tty => ProgressAction::PrintAboveBar { line },
            _ => ProgressAction::Nothing,
        }
    }

    /// A file got a new name.
    pub fn report_renamed(&self, old_path: &str, new_path: &str) -> (r: ProgressAction)
        ensures
            r@ == self.aside("  renamed: "@ + old_path@ + " -> "@ + new_path@),
    {
        let mut line = text::copy("  renamed: ");
        line.append(old_path);
        line.append(" -> ");
        line.append(new_path);
        self.say(line)
    }

    /// A file is gone.
    pub fn report_deleted(&self, rel: &str) -> (r: ProgressAction)
        ensures
            r@ == self.aside("  deleted: "@ + rel@),
    {
        let mut line = text::copy("  deleted: ");
        line.append(rel);
        self.say(line)
    }

    /// Whether there is a bar to be taken away at the end.
    pub fn finish(self) -> (r: bool)
        ensures
            r == (self.state == ProgressState::Tty),
    {
        match self.state {
            ProgressState::Tty => true,
            _ => false,
        }
    }
}

/// The last file of a run always gets a line, and it says 100 per cent.
pub proof fn the_last_file_says_all_is_done(total: nat, step: nat)
    requires
        total > 0,
    ensures
        should_emit_spec(total, total, step),
        total * 100 / total == 100,
{
    assert(total * 100 / total == 100) by (nonlinear_arith)
        requires
            total > 0,
    ;
}

/// A line comes exactly after each full step and after the last file, and never before the first.
pub proof fn lines_come_at_full_steps(count: nat, total: nat, step: nat)
    ensures
        should_emit_spec(count, total, step) <==> total > 0 && count > 0 && (count == total
            || exists|times: nat| step > 0 && count == #[trigger] (times * step)),
        count == 0 ==> !should_emit_spec(count, total, step),
{
    if step > 0 {
        assert(count == (count / step) * step + count % step) by (nonlinear_arith)
            requires
                step > 0,
        ;
        if count % step == 0 {
            assert(count == (count / step) * step);
        }
        if exists|times: nat| step > 0 && count == #[trigger] (times * step) {
            let times = choose|times: nat| step > 0 && count == #[trigger] (times * step);
            assert((times * step) % step == 0) by (nonlinear_arith)
                requires
                    step > 0,
            ;
        }
    }
}

/// A run is shown in steps of a twentieth of its files, rounded down, but of at least one.
pub proof fn a_step_is_a_twentieth(total: nat)
    ensures
        step_spec(total) >= 1,
        total >= 20 ==> 20 * step_spec(total) <= total < 20 * (step_spec(total) + 1),
        total < 20 ==> step_spec(total) == 1,
{
}

/// What is said of the progress: how many files of how many are done, and what part that is in
/// whole per cent, rounded down.
pub proof fn progress_is_told_in_per_cent(count: nat, total: nat)
    requires
        total > 0,
    ensures
        exists|percent: nat| {
            &&& percent * total <= count * 100 < (percent + 1) * total
            &&& progress_line(count, total) == "Progress: "@ + text::decimal_spec(count) + "/"@
                + text::decimal_spec(total) + " ("@ + #[trigger] text::decimal_spec(percent)
                + "%)"@
        },
{
    let percent = count * 100 / total;
    assert(percent * total <= count * 100 < (percent + 1) * total) by (nonlinear_arith)
        requires
            total > 0,
            percent == count * 100 / total,
    ;
    assert(progress_line(count, total) == "Progress: "@ + text::decimal_spec(count) + "/"@
        + text::decimal_spec(total) + " ("@ + text::decimal_spec(percent) + "%)"@);
}

/// A reporter that counts goes on by one for each file and keeps its total and its step; any other
/// stays as it is. A silent one shows nothing aside, one on a terminal shows it above the bar.
pub proof fn a_reporter_counts_each_file(r: ProgressReporter, line: Seq<char>)
    requires
        r.counted() < u64::MAX,
    ensures
        r.state is NonTty <==> r.stepped() is NonTty,
        r.state is NonTty ==> r.stepped()->count == r.state->count + 1 && r.stepped()->total
            == r.state->total && r.stepped()->step == r.state->step,
        !(r.state is NonTty) ==> r.stepped() == r.state,
        r.state is Quiet || r.state is NonTty || r.state is AutoPending ==> r.aside(line)
            is Nothing,
        r.state is Verbose ==> r.aside(line) == (ActionModel::Print { line }),
        r.state is Tty ==> r.aside(line) == (ActionModel::PrintAboveBar { line }),
{
}

} // verus!
