//! What the tray shows of the service.
use vstd::prelude::*;

verus! {

/// The colour of the icon.
#[derive(Debug, Clone, Copy, PartialEq, Eq, Structural)]
pub enum StatusDot {
    /// Nothing is known yet.
    Gray,
    Green,
    Yellow,
    /// The service does not answer.
    Red,
}

/// Which entries of the menu can be chosen.
#[derive(Debug, Clone, Copy, PartialEq, Eq, Structural)]
pub struct MenuState {
    pub start: bool,
    pub stop: bool,
    pub restart: bool,
}

/// Which entries of the menu can be chosen: a service that is not known to run can be started;
/// one that runs can be stopped or restarted.
pub fn menu_for(dot: StatusDot) -> (r: MenuState)
    ensures
        r.start == (dot == StatusDot::Red || dot == StatusDot::Gray),
        r.stop == !r.start,
        r.restart == !r.start,
{
    match dot {
        StatusDot::Red | StatusDot::Gray => MenuState { start: true, stop: false, restart: false },
        StatusDot::Green | StatusDot::Yellow => MenuState {
            start: false,
            stop: true,
            restart: true,
        },
    }
}

/// How many times in a row the service does not answer before it counts as down.
pub const FAILURES_UNTIL_DOWN: u32 = 12;

/// How many times in a row the service has not answered.
#[derive(Debug, Clone, Copy, PartialEq, Eq, Structural)]
pub struct Failures {
    pub consecutive_failures: u32,
}

/// How many of the last polls in a row failed.
pub open spec fn trailing_failures(polls: Seq<bool>) -> nat
    decreases polls.len(),
{
    if polls.len() == 0 || polls.last() {
        0
    } else {
        trailing_failures(polls.drop_last()) + 1
    }
}

impl Failures {
    /// Before the first poll.
    pub fn new() -> (r: Self)
        ensures
            r.after(seq![]),
    {
        Failures { consecutive_failures: 0 }
    }

    /// Whether this is the count after these polls; each is true if the service answered.
    pub open spec fn after(self, polls: Seq<bool>) -> bool {
        self.consecutive_failures == if trailing_failures(polls) <= u32::MAX {
            trailing_failures(polls) as int
        } else {
            u32::MAX as int
        }
    }

    /// The service answered: the count starts again.
    pub fn on_success(&mut self)
        ensures
            final(self).consecutive_failures == 0,
            forall|polls: Seq<bool>| #[trigger] final(self).after(polls.push(true)),
    {
        self.consecutive_failures = 0;
        proof {
            assert forall|polls: Seq<bool>| #[trigger] self.after(polls.push(true)) by {}
        }
    }

    /// The service did not answer.
    pub fn on_failure(&mut self)
        ensures
            final(self).consecutive_failures == if old(self).consecutive_failures < u32::MAX {
                old(self).consecutive_failures + 1
            } else {
                u32::MAX as int
            },
            forall|polls: Seq<bool>|
                old(self).after(polls) ==> #[trigger] final(self).after(polls.push(false)),
    {
        if self.consecutive_failures < u32::MAX {
            self.consecutive_failures += 1;
        }
        proof {
            assert forall|polls: Seq<bool>| old(self).after(polls) implies #[trigger] self.after(
                polls.push(false),
            ) by {
                assert(polls.push(false).drop_last() =~= polls);
            }
        }
    }

    /// Whether the service counts as down.
    pub fn is_down(&self) -> (r: bool)
        ensures
            r == (self.consecutive_failures >= FAILURES_UNTIL_DOWN),
    {
        self.consecutive_failures >= FAILURES_UNTIL_DOWN
    }
}

/// A service counts as down exactly when the last twelve polls failed, or more; a single answer
/// brings it back.
pub proof fn down_after_twelve_failures(failures: Failures, polls: Seq<bool>)
    requires
        failures.after(polls),
    ensures
        failures.consecutive_failures >= FAILURES_UNTIL_DOWN <==> polls.len() >= 12 && forall|
            i: int,
        |
            polls.len() - 12 <= i < polls.len() ==> !#[trigger] polls[i],
{
    trailing_failures_mean(polls, 12);
}

proof fn trailing_failures_mean(polls: Seq<bool>, n: nat)
    ensures
        trailing_failures(polls) >= n <==> polls.len() >= n && forall|i: int|
            polls.len() - n <= i < polls.len() ==> !#[trigger] polls[i],
    decreases polls.len(),
{
    if n > 0 && polls.len() > 0 {
        trailing_failures_mean(polls.drop_last(), (n - 1) as nat);
        let before = polls.drop_last();
        if polls.last() {
            assert(polls[polls.len() - 1]);
        } else {
            if trailing_failures(polls) >= n {
                assert forall|i: int| polls.len() - n <= i < polls.len() implies !#[trigger] polls[i] by {
                    if i < before.len() {
                        assert(!before[i]);
                    }
                }
            }
            if polls.len() >= n && (forall|i: int|
                polls.len() - n <= i < polls.len() ==> !#[trigger] polls[i]) {
                assert forall|i: int| before.len() - (n - 1) <= i < before.len() implies !#[trigger] before[i] by {
                    assert(!polls[i]);
                }
            }
        }
    }
}

} // verus!
