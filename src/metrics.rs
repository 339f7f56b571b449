use crate::day::{midnight_seconds, Day};
use crate::decimal::{decimal_text, push_decimal, push_signed, signed_text};
use vstd::prelude::*;

verus! {

/// The text that opens the exposition of the step gauge.
pub const STEPS_HEADER: &'static str = "# HELP fitbit_steps Total number of steps.\n# TYPE fitbit_steps gauge\n";

/// The text that ends an exposition.
pub const EXPOSITION_END: &'static str = "# EOF\n";

/// One point of the step gauge: a live reading has no day; a reading of a
/// past day carries that day.
#[derive(Clone, Copy, Debug, PartialEq, Eq, Structural)]
pub struct MetricPoint {
    pub value: u64,
    pub day: Option<Day>,
}

/// The points of the step gauge, at most one per day and at most one live.
#[derive(Debug)]
pub struct FitbitMetrics {
    pub points: Vec<MetricPoint>,
}

/// No two points share a day, and at most one point is live.
pub open spec fn points_wf(s: Seq<MetricPoint>) -> bool {
    forall|i: int, j: int| 0 <= i < s.len() && 0 <= j < s.len() && i != j ==> s[i].day != s[j].day
}

/// Whether some point is for `day`.
pub open spec fn has_day(s: Seq<MetricPoint>, day: Day) -> bool {
    exists|i: int| 0 <= i < s.len() && s[i].day == Some(day)
}

/// Whether a live reading can be recorded: the gauge is empty, or holds
/// only the live point.
pub open spec fn live_fits(s: Seq<MetricPoint>) -> bool {
    s.len() == 0 || (s.len() == 1 && s[0].day is None)
}

/// The points after recording a live reading: it becomes the only point
/// where the gauge was empty or held only the live point; where the gauge
/// holds past days, it is dropped and no point changes.
pub open spec fn live_upserted(s: Seq<MetricPoint>, value: u64) -> Seq<MetricPoint> {
    if live_fits(s) {
        seq![MetricPoint { value, day: None }]
    } else {
        s
    }
}

/// The points after recording `value` for `day`: it replaces the point for
/// that day, or is appended where there was none.
pub open spec fn timed_upserted(s: Seq<MetricPoint>, day: Day, value: u64) -> Seq<MetricPoint> {
    let p = MetricPoint { value, day: Some(day) };
    if has_day(s, day) {
        s.map_values(|q: MetricPoint| if q.day == Some(day) { p } else { q })
    } else {
        s.push(p)
    }
}

/// The points after recording each of `days` in turn.
pub open spec fn all_timed_upserted(s: Seq<MetricPoint>, days: Seq<(Day, u64)>) -> Seq<MetricPoint>
    decreases days.len(),
{
    if days.len() == 0 {
        s
    } else {
        timed_upserted(all_timed_upserted(s, days.drop_last()), days.last().0, days.last().1)
    }
}

/// The exposition line of one point: the gauge's name, the value and, for
/// a past day, the Unix time in seconds of its midnight UTC.
pub open spec fn point_line(p: MetricPoint) -> Seq<char> {
    "fitbit_steps "@ + decimal_text(p.value as nat) + match p.day {
        Some(d) => " "@ + signed_text(midnight_seconds(d)),
        None => Seq::<char>::empty(),
    } + "\n"@
}

/// The exposition lines of the points, in order.
pub open spec fn point_lines(s: Seq<MetricPoint>) -> Seq<char>
    decreases s.len(),
{
    if s.len() == 0 {
        Seq::<char>::empty()
    } else {
        point_lines(s.drop_last()) + point_line(s.last())
    }
}

/// The whole exposition of the points.
pub open spec fn exposition(s: Seq<MetricPoint>) -> Seq<char> {
    STEPS_HEADER@ + point_lines(s) + EXPOSITION_END@
}

proof fn lemma_timed_upserted_wf(s: Seq<MetricPoint>, day: Day, value: u64)
    requires
        points_wf(s),
    ensures
        points_wf(timed_upserted(s, day, value)),
        has_day(timed_upserted(s, day, value), day),
{
    let p = MetricPoint { value, day: Some(day) };
    let t = timed_upserted(s, day, value);
    if has_day(s, day) {
        let k = choose|i: int| 0 <= i < s.len() && s[i].day == Some(day);
        assert(t[k] == p);
        assert forall|i: int, j: int| 0 <= i < t.len() && 0 <= j < t.len() && i != j implies t[i].day != t[j].day by {
            if t[i].day == t[j].day {
                assert(s[i].day == Some(day) || s[j].day == Some(day) || s[i].day == s[j].day);
            }
        }
    } else {
        assert(t[s.len() as int] == p);
    }
}

/// Whether some point records `value` for `day`.
pub open spec fn has_point(s: Seq<MetricPoint>, day: Day, value: u64) -> bool {
    exists|i: int| 0 <= i < s.len() && s[i] == (MetricPoint { value, day: Some(day) })
}

/// Recording the same live reading again, while the gauge holds at most one
/// point and that point is live, changes nothing: the gauge holds exactly
/// one point.
pub proof fn lemma_upsert_live_idempotent(s: Seq<MetricPoint>, value: u64)
    requires
        s.len() <= 1,
        forall|i: int| 0 <= i < s.len() ==> ((#[trigger] s[i]).day is None),
    ensures
        live_upserted(live_upserted(s, value), value) == live_upserted(s, value),
        live_upserted(s, value).len() == 1,
{
}

/// Recording `v` and then `v2` for the same day leaves exactly one point for
/// that day, with the value `v2`: there is such a point, and no two points
/// share a day.
pub proof fn lemma_upsert_timed_last_wins(s: Seq<MetricPoint>, day: Day, v: u64, v2: u64)
    requires
        points_wf(s),
    ensures
        points_wf(timed_upserted(timed_upserted(s, day, v), day, v2)),
        has_point(timed_upserted(timed_upserted(s, day, v), day, v2), day, v2),
{
    lemma_timed_upserted_wf(s, day, v);
    lemma_timed_upserted_has(timed_upserted(s, day, v), day, v2);
}

/// Whether `q` is one of the points.
pub open spec fn has_entry(s: Seq<MetricPoint>, q: MetricPoint) -> bool {
    exists|i: int| 0 <= i < s.len() && s[i] == q
}

proof fn lemma_timed_upserted_has(s: Seq<MetricPoint>, day: Day, value: u64)
    requires
        points_wf(s),
    ensures
        points_wf(timed_upserted(s, day, value)),
        has_point(timed_upserted(s, day, value), day, value),
{
    lemma_timed_upserted_wf(s, day, value);
    let t = timed_upserted(s, day, value);
    if has_day(s, day) {
        let k = choose|i: int| 0 <= i < s.len() && s[i].day == Some(day);
        assert(t[k] == MetricPoint { value, day: Some(day) });
    } else {
        assert(t[s.len() as int] == MetricPoint { value, day: Some(day) });
    }
}

proof fn lemma_timed_upserted_keeps(s: Seq<MetricPoint>, day: Day, value: u64, q: MetricPoint)
    requires
        has_entry(s, q),
        q.day != Some(day),
    ensures
        has_entry(timed_upserted(s, day, value), q),
{
    let t = timed_upserted(s, day, value);
    let i = choose|i: int| 0 <= i < s.len() && s[i] == q;
    assert(t[i] == q);
}

proof fn lemma_all_timed_upserted_wf(s: Seq<MetricPoint>, days: Seq<(Day, u64)>)
    requires
        points_wf(s),
    ensures
        points_wf(all_timed_upserted(s, days)),
    decreases days.len(),
{
    if days.len() > 0 {
        lemma_all_timed_upserted_wf(s, days.drop_last());
        lemma_timed_upserted_wf(all_timed_upserted(s, days.drop_last()), days.last().0, days.last().1);
    }
}

/// Recording a run of daily readings, from any gauge, leaves exactly one
/// point for each day of the run, with the value of that day's last reading
/// in the run: there is such a point, and no two points share a day.
pub proof fn lemma_range_last_wins(s: Seq<MetricPoint>, days: Seq<(Day, u64)>, k: int)
    requires
        points_wf(s),
        0 <= k < days.len(),
        forall|j: int| k < j < days.len() ==> (#[trigger] days[j]).0 != days[k].0,
    ensures
        points_wf(all_timed_upserted(s, days)),
        has_point(all_timed_upserted(s, days), days[k].0, days[k].1),
    decreases days.len(),
{
    let front = days.drop_last();
    lemma_all_timed_upserted_wf(s, front);
    lemma_all_timed_upserted_wf(s, days);
    let r = all_timed_upserted(s, front);
    if k == days.len() - 1 {
        lemma_timed_upserted_has(r, days[k].0, days[k].1);
    } else {
        assert forall|j: int| k < j < front.len() implies (#[trigger] front[j]).0 != front[k].0 by {
            assert(front[j] == days[j]);
        }
        lemma_range_last_wins(s, front, k);
        assert(days.last() == days[days.len() - 1]);
        lemma_timed_upserted_keeps(r, days.last().0, days.last().1, MetricPoint { value: days[k].1, day: Some(days[k].0) });
    }
}

/// Recording one run of daily readings and then another leaves, for each day
/// of the second run, exactly one point, with the value of that day's last
/// reading in the second run.
pub proof fn lemma_two_ranges_last_wins(
    s: Seq<MetricPoint>,
    first: Seq<(Day, u64)>,
    second: Seq<(Day, u64)>,
    k: int,
)
    requires
        points_wf(s),
        0 <= k < second.len(),
        forall|j: int| k < j < second.len() ==> (#[trigger] second[j]).0 != second[k].0,
    ensures
        points_wf(all_timed_upserted(all_timed_upserted(s, first), second)),
        has_point(all_timed_upserted(all_timed_upserted(s, first), second), second[k].0, second[k].1),
{
    lemma_all_timed_upserted_wf(s, first);
    lemma_range_last_wins(all_timed_upserted(s, first), second, k);
}

/// Recording a run of daily readings keeps every point whose day is not in
/// the run, the live point included: no point is deleted.
pub proof fn lemma_range_keeps_other_points(s: Seq<MetricPoint>, days: Seq<(Day, u64)>, q: MetricPoint)
    requires
        has_entry(s, q),
        forall|j: int| 0 <= j < days.len() ==> q.day != Some((#[trigger] days[j]).0),
    ensures
        has_entry(all_timed_upserted(s, days), q),
    decreases days.len(),
{
    if days.len() > 0 {
        let front = days.drop_last();
        assert forall|j: int| 0 <= j < front.len() implies q.day != Some((#[trigger] front[j]).0) by {
            assert(front[j] == days[j]);
        }
        lemma_range_keeps_other_points(s, front, q);
        assert(days.last() == days[days.len() - 1]);
        lemma_timed_upserted_keeps(all_timed_upserted(s, front), days.last().0, days.last().1, q);
    }
}

/// A live reading keeps every point of a past day.
pub proof fn lemma_live_keeps_past_days(s: Seq<MetricPoint>, value: u64, q: MetricPoint)
    requires
        has_entry(s, q),
        q.day is Some,
    ensures
        has_entry(live_upserted(s, value), q),
{
}

impl FitbitMetrics {
    pub open spec fn wf(self) -> bool {
        points_wf(self.points@)
    }

    /// An empty gauge.
    pub fn new() -> (r: Self)
        ensures
            r.wf(),
            r.points@ == Seq::<MetricPoint>::empty(),
    {
        FitbitMetrics { points: Vec::new() }
    }

    /// Records a live reading. Where the gauge holds past days, the reading
    /// is dropped and `false` returned, so that the caller can warn.
    pub fn upsert_live(&mut self, value: u64) -> (r: bool)
        requires
            old(self).wf(),
        ensures
            final(self).wf(),
            final(self).points@ == live_upserted(old(self).points@, value),
            r == live_fits(old(self).points@),
    {
        let p = MetricPoint { value, day: None };
        if self.points.len() == 0 {
            self.points.push(p);
            assert(self.points@ =~= seq![p]);
            true
        } else if self.points.len() == 1 && self.points[0].day.is_none() {
            self.points.set(0, p);
            assert(self.points@ =~= seq![p]);
            true
        } else {
            false
        }
    }

    /// Records `value` for `day`, replacing an earlier reading of that day.
    pub fn upsert_timed(&mut self, day: Day, value: u64)
        requires
            old(self).wf(),
        ensures
            final(self).wf(),
            final(self).points@ == timed_upserted(old(self).points@, day, value),
    {
        let ghost s = self.points@;
        let mut i: usize = 0;
        while i < self.points.len()
            invariant
                self.points@ == s,
                s == old(self).points@,
                points_wf(s),
                0 <= i <= s.len(),
                forall|j: int| 0 <= j < i ==> s[j].day != Some(day),
            decreases s.len() - i,
        {
            if self.points[i].day == Some(day) {
                assert(s[i as int].day == Some(day));
                assert(has_day(s, day));
                assert(forall|j: int| 0 <= j < s.len() && j != i ==> s[j].day != s[i as int].day);
                self.points.set(i, MetricPoint { value, day: Some(day) });
                let ghost t = timed_upserted(s, day, value);
                assert forall|j: int| 0 <= j < s.len() implies self.points@[j] == t[j] by {
                    if j == i {
                        assert(t[j] == MetricPoint { value, day: Some(day) });
                    } else {
                        assert(t[j] == s[j]);
                    }
                }
                assert(self.points@ =~= t);
                proof {
                    lemma_timed_upserted_wf(s, day, value);
                }
                return;
            }
            i = i + 1;
        }
        self.points.push(MetricPoint { value, day: Some(day) });
        proof {
            lemma_timed_upserted_wf(s, day, value);
        }
    }

    /// The exposition text of the gauge, one line per point in order.
    pub fn render(&self) -> (r: String)
        ensures
            r@ == exposition(self.points@),
    {
        let mut out = String::from_str(STEPS_HEADER);
        let mut i: usize = 0;
        while i < self.points.len()
            invariant
                0 <= i <= self.points@.len(),
                out@ == STEPS_HEADER@ + point_lines(self.points@.subrange(0, i as int)),
            decreases self.points@.len() - i,
        {
            let p = self.points[i];
            let ghost before = out@;
            out.append("fitbit_steps ");
            push_decimal(&mut out, p.value);
            match p.day {
                Some(d) => {
                    out.append(" ");
                    push_signed(&mut out, d.midnight_utc_timestamp());
                },
                None => {},
            }
            out.append("\n");
            assert(out@ =~= before + point_line(p));
            assert(self.points@.subrange(0, i + 1).drop_last() =~= self.points@.subrange(0, i as int));
            i = i + 1;
        }
        assert(self.points@.subrange(0, i as int) =~= self.points@);
        out.append(EXPOSITION_END);
        out
    }
}

} // verus!
