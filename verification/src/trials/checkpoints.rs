//! When a training run reports: at every fifth of its epochs or of its operations.

use vstd::prelude::*;

use crate::trials::budget;

verus! {

/// The number of reports.
pub const REPORTS: usize = 5;

/// The part of a run, in percent, that a report stands for.
pub open spec fn percent(report: nat) -> nat {
    20 * (report + 1)
}

/// The epoch at which a report is due.
pub open spec fn due(epochs: nat, report: nat) -> nat {
    budget::nearest(epochs * percent(report), 100)
}

/// The number of reports made after one more epoch.
pub open spec fn made_after(epochs: nat, made: nat, epoch: nat) -> nat {
    if made < REPORTS && epoch == due(epochs, made) {
        made + 1
    } else {
        made
    }
}

/// The number of reports made after the epochs from the first to the given one.
pub open spec fn made_by(epochs: nat, epoch: nat) -> nat
    decreases epoch,
{
    if epoch == 0 {
        0
    } else {
        made_after(epochs, made_by(epochs, (epoch - 1) as nat), epoch)
    }
}

/// Reports by epochs.
#[derive(Debug, Clone, Copy, PartialEq, Eq, Structural)]
pub struct EpochCheckpoints {
    /// The number of epochs of the run.
    pub epochs: usize,
    /// The number of reports made.
    pub made: usize,
}

impl EpochCheckpoints {
    /// No more reports have been made than there are.
    pub open spec fn well_formed(self) -> bool {
        self.made <= REPORTS
    }

    /// Begins a run.
    pub fn new(epochs: usize) -> (track: Self)
        ensures
            track.well_formed(),
            track.epochs == epochs,
            track.made == made_by(epochs as nat, 0),
    {
        EpochCheckpoints { epochs, made: 0 }
    }

    /// Notes that an epoch has ended; returns the percentage to report, if any.
    pub fn note(&mut self, epoch: usize) -> (report: Option<usize>)
        requires
            old(self).well_formed(),
        ensures
            final(self).well_formed(),
            final(self).epochs == old(self).epochs,
            final(self).made == made_after(
                old(self).epochs as nat,
                old(self).made as nat,
                epoch as nat,
            ),
            report == if final(self).made > old(self).made {
                Some(percent(old(self).made as nat) as usize)
            } else {
                None
            },
    {
        if self.made >= REPORTS {
            return None;
        }
        let share: usize = 20 * (self.made + 1);
        proof {
            let epochs = self.epochs as nat;
            assert(0 <= epochs * share <= epochs * 100) by (nonlinear_arith)
                requires
                    share <= 100,
            ;
        }
        let part: u128 = (self.epochs as u128) * (share as u128);
        let at: u128 = (2 * part + 100) / 200;
        if (epoch as u128) == at {
            self.made = self.made + 1;
            Some(share)
        } else {
            None
        }
    }
}

proof fn lemma_due(epochs: nat, report: nat)
    requires
        epochs >= 5,
        report < REPORTS,
    ensures
        1 <= due(epochs, report) <= epochs,
        report + 1 < REPORTS ==> due(epochs, report) < due(epochs, report + 1),
        due(epochs, 4) == epochs,
{
    let part = epochs * percent(report);
    assert(20 * epochs <= part <= 100 * epochs) by (nonlinear_arith)
        requires
            part == epochs * percent(report),
            20 <= percent(report) <= 100,
    ;
    assert(epochs * percent(report + 1) == part + 20 * epochs) by (nonlinear_arith)
        requires
            part == epochs * percent(report),
            percent(report + 1) == percent(report) + 20,
    ;
    assert(epochs * percent(4) == 100 * epochs) by (nonlinear_arith)
        requires
            percent(4) == 100,
    ;
    assert(due(epochs, report) == (2 * part + 100) / 200);
    assert(due(epochs, report + 1) == (2 * (part + 20 * epochs) + 100) / 200);
}

proof fn lemma_made(epochs: nat, epoch: nat)
    requires
        epochs >= 5,
    ensures
        made_by(epochs, epoch) <= REPORTS,
        forall|report: nat|
            report < REPORTS ==> (#[trigger] due(epochs, report) <= epoch <==> report < made_by(
                epochs,
                epoch,
            )),
    decreases epoch,
{
    lemma_due(epochs, 0);
    lemma_due(epochs, 1);
    lemma_due(epochs, 2);
    lemma_due(epochs, 3);
    lemma_due(epochs, 4);
    if epoch > 0 {
        let before = (epoch - 1) as nat;
        lemma_made(epochs, before);
        let made = made_by(epochs, before);
        assert forall|report: nat| report < REPORTS implies (#[trigger] due(epochs, report) <= epoch
            <==> report < made_by(epochs, epoch)) by {
            assert(due(epochs, report) <= before <==> report < made);
            if made < REPORTS {
                lemma_due_is_ordered(epochs, report, made);
            }
        }
    }
}

proof fn lemma_due_is_ordered(epochs: nat, a: nat, b: nat)
    requires
        epochs >= 5,
        a < REPORTS,
        b < REPORTS,
    ensures
        a < b ==> due(epochs, a) < due(epochs, b),
        b < a ==> due(epochs, b) < due(epochs, a),
{
    lemma_due(epochs, 0);
    lemma_due(epochs, 1);
    lemma_due(epochs, 2);
    lemma_due(epochs, 3);
    assert(due(epochs, 0) < due(epochs, 1) < due(epochs, 2) < due(epochs, 3) < due(epochs, 4));
}

/// A run of at least five epochs makes every report, in order, the last one at its end.
pub proof fn law_every_report_is_made(epochs: nat, report: nat)
    requires
        epochs >= 5,
        report < REPORTS,
    ensures
        made_by(epochs, epochs) == REPORTS,
        made_by(epochs, due(epochs, report)) == report + 1,
        made_by(epochs, (due(epochs, report) - 1) as nat) == report,
        due(epochs, 4) == epochs,
{
    lemma_due(epochs, report);
    lemma_due(epochs, 4);
    lemma_made(epochs, epochs);
    assert(due(epochs, 4) <= epochs);
    let at = due(epochs, report);
    lemma_made(epochs, at);
    lemma_made(epochs, (at - 1) as nat);
    assert(due(epochs, report) <= at);
    if report + 1 < REPORTS {
        lemma_due_is_ordered(epochs, report, report + 1);
        assert(!(due(epochs, report + 1) <= at));
    }
    if report > 0 {
        let earlier = (report - 1) as nat;
        lemma_due_is_ordered(epochs, earlier, report);
        assert(due(epochs, earlier) <= at - 1);
    }
}

/// Reports by operations.
#[derive(Debug, Clone, Copy, PartialEq, Eq, Structural)]
pub struct ComputeCheckpoints {
    /// The operations of the run.
    pub budget: u64,
    /// The number of reports made.
    pub made: usize,
}

/// A share of a budget, in percent, has been spent.
pub open spec fn share_is_spent(budget: nat, spent: nat, share: nat) -> bool {
    spent * 100 >= budget * share
}

impl ComputeCheckpoints {
    /// No more reports have been made than there are.
    pub open spec fn well_formed(self) -> bool {
        self.made <= REPORTS
    }

    /// A report is due: the next share of the budget has been spent, or the run is over.
    pub open spec fn is_due(self, spent: nat, over: bool) -> bool {
        &&& self.made < REPORTS
        &&& over || share_is_spent(self.budget as nat, spent, percent(self.made as nat))
    }

    /// Begins a run.
    pub fn new(budget: u64) -> (track: Self)
        ensures
            track.well_formed(),
            track.budget == budget,
            track.made == 0,
    {
        ComputeCheckpoints { budget, made: 0 }
    }

    /// Notes what has been spent at the end of an epoch; returns the percentage to report, if any.
    pub fn note(&mut self, spent: u64, over: bool) -> (report: Option<usize>)
        requires
            old(self).well_formed(),
        ensures
            final(self).well_formed(),
            final(self).budget == old(self).budget,
            final(self).made == old(self).made + (if old(self).is_due(spent as nat, over) {
                1int
            } else {
                0int
            }),
            report == if old(self).is_due(spent as nat, over) {
                Some(percent(old(self).made as nat) as usize)
            } else {
                None
            },
    {
        if self.made >= REPORTS {
            return None;
        }
        let share: usize = 20 * (self.made + 1);
        proof {
            let budget = self.budget as nat;
            assert(budget * share <= budget * 100) by (nonlinear_arith)
                requires
                    share <= 100,
            ;
        }
        let reached: u128 = (spent as u128) * 100;
        let owed: u128 = (self.budget as u128) * (share as u128);
        if over || reached >= owed {
            self.made = self.made + 1;
            Some(share)
        } else {
            None
        }
    }
}

/// Whoever has spent one share of a budget has spent every smaller one, and spending more undoes
/// nothing.
pub proof fn law_shares_are_spent_in_order(
    budget: nat,
    spent: nat,
    more: nat,
    share: nat,
    smaller: nat,
)
    requires
        spent <= more,
        smaller <= share,
        share_is_spent(budget, spent, share),
    ensures
        share_is_spent(budget, more, smaller),
{
    assert(budget * smaller <= budget * share) by (nonlinear_arith)
        requires
            smaller <= share,
    ;
}

/// The reports stand for five equal parts of a run, the last one for all of it.
pub proof fn law_reports_stand_for_fifths(report: nat)
    ensures
        percent(0) == 20,
        percent(report + 1) == percent(report) + 20,
        percent(4) == 100,
        5 * percent(report) == 100 * (report + 1),
{
}

/// A report is due at the epoch nearest to its part of the run: no other epoch is nearer.
pub proof fn law_reports_are_due_at_the_nearest_epoch(epochs: nat, report: nat, other: nat)
    ensures
        ({
            let off = 5 * due(epochs, report) - (report + 1) * epochs;
            let other_off = 5 * other - (report + 1) * epochs;
            &&& -5 < 2 * off <= 5
            &&& (if off < 0 {
                -off
            } else {
                off
            }) <= (if other_off < 0 {
                -other_off
            } else {
                other_off
            })
        }),
{
    let part = epochs * percent(report);
    let fifths = (report + 1) * epochs;
    assert(part == 20 * fifths) by (nonlinear_arith)
        requires
            part == epochs * percent(report),
            percent(report) == 20 * (report + 1),
            fifths == (report + 1) * epochs,
    ;
    assert(due(epochs, report) == (2 * part + 100) / 200);
}

/// After an epoch one more report has been made exactly where it was the epoch at which the next
/// one is due, and there is a next one.
pub proof fn law_reports_are_made_when_due(epochs: nat, made: nat, epoch: nat)
    ensures
        made_after(epochs, made, epoch) == made || made_after(epochs, made, epoch) == made + 1,
        made_after(epochs, made, epoch) == made + 1 <==> made < 5 && due(epochs, made) == epoch,
{
}

/// A share of a budget has been spent exactly where so many hundredths of it have: of a budget of
/// `hundredth` operations a hundred times over, `share` times `hundredth`.
pub proof fn law_shares_are_hundredths(hundredth: nat, spent: nat, share: nat)
    ensures
        share_is_spent(100 * hundredth, spent, share) <==> spent >= share * hundredth,
{
    assert((100 * hundredth) * share == 100 * (share * hundredth)) by (nonlinear_arith);
}

/// A report by operations is due where fewer than five have been made and either the run is over or
/// the next fifth of the budget has been spent.
pub proof fn law_compute_reports_are_due(track: ComputeCheckpoints, spent: nat, over: bool)
    ensures
        track.is_due(spent, over) <==> track.made < 5 && (over || 5 * spent >= (track.made + 1)
            * track.budget),
{
    let b = track.budget as int;
    let m = track.made as int;
    assert(b * (20 * (m + 1)) == 20 * ((m + 1) * b)) by (nonlinear_arith);
    assert(percent(track.made as nat) == 20 * (m + 1));
}

} // verus!
