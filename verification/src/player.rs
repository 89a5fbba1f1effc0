//! What the player reports back, and which of its reports are still about
//! the song that is open.
//!
//! The player runs on its own and reports how the song is going every tenth
//! of a second. Every report carries the generation it was made in, and
//! opening a song or stopping moves the generation on, so that a late report
//! that the last song ended cannot move the queue on after the next one has
//! already opened.
use vstd::prelude::*;

verus! {

/// The generation after this one, round at the top.
pub open spec fn next_generation(g: u64) -> u64 {
    if g == u64::MAX {
        0
    } else {
        (g + 1) as u64
    }
}

/// The status the player is believed to be in after `reports`: the last of
/// them made in generation `g`, or `status` where none was.
pub open spec fn believed<S>(status: S, reports: Seq<(u64, S)>, g: u64) -> S
    decreases reports.len(),
{
    if reports.len() == 0 {
        status
    } else if reports.last().0 == g {
        reports.last().1
    } else {
        believed(status, reports.drop_last(), g)
    }
}

/// Which song the player's reports are about.
pub struct Generation {
    pub current: u64,
}

impl Generation {
    pub fn new() -> (g: Generation)
        ensures
            g.current == 0,
    {
        Generation { current: 0 }
    }

    /// A song opened or the player stopped: what it reported before is
    /// about something else now.
    pub fn advance(&mut self) -> (g: u64)
        ensures
            final(self).current == next_generation(old(self).current),
            g == final(self).current,
    {
        self.current = self.current.wrapping_add(1);
        self.current
    }

    /// Whether a report made in generation `made` is about the song open.
    pub fn accepts(&self, made: u64) -> (r: bool)
        ensures
            r == (made == self.current),
    {
        made == self.current
    }

    /// Read the reports that came in, in the order they came: the status is
    /// the last one made in this generation, and stays as it was where none
    /// was.
    pub fn take_reports<S>(&self, status: S, reports: Vec<(u64, S)>) -> (r: S)
        ensures
            r == believed(status, reports@, self.current),
    {
        let ghost all = reports@;
        let ghost start = status;
        let mut reports = reports;
        let n = reports.len();
        assert(all.len() == n);
        let mut r = status;
        let mut i: usize = 0;
        while reports.len() > 0
            invariant
                all.len() == i + reports@.len(),
                all.len() <= usize::MAX,
                reports@ == all.skip(i as int),
                r == believed(start, all.take(i as int), self.current),
            decreases reports.len(),
        {
            let next = reports.remove(0);
            assert(all.take(i + 1).drop_last() == all.take(i as int));
            assert(all.take(i + 1).last() == next);
            if next.0 == self.current {
                r = next.1;
            }
            i = i + 1;
        }
        assert(all.take(i as int) == all);
        r
    }
}

/// Opening a song or stopping always moves the generation on, so a report
/// made before it is never taken for one made after.
pub proof fn law_a_new_generation_is_another(g: u64)
    ensures
        next_generation(g) != g,
{
}

/// Reports made in any other generation change nothing of what the player is
/// believed to be doing: a late report that the last song ended cannot end
/// the one open now.
pub proof fn law_late_reports_change_nothing<S>(status: S, reports: Seq<(u64, S)>, g: u64)
    requires
        forall|i: int| 0 <= i < reports.len() ==> #[trigger] reports[i].0 != g,
    ensures
        believed(status, reports, g) == status,
    decreases reports.len(),
{
    if reports.len() > 0 {
        assert(reports.last().0 != g);
        law_late_reports_change_nothing(status, reports.drop_last(), g);
    }
}

/// A report made in the generation open is believed, whatever came before
/// it.
pub proof fn law_the_latest_report_is_believed<S>(status: S, reports: Seq<(u64, S)>, g: u64, latest: S)
    ensures
        believed(status, reports.push((g, latest)), g) == latest,
{
    assert(reports.push((g, latest)).last() == (g, latest));
}

} // verus!
