//! Flattening of a nested week/day contribution calendar into a flat,
//! week-major sequence of per-day records, with defensive bound checks.

use vstd::prelude::*;

use crate::errors::FetchError;

verus! {

broadcast use vstd::seq::axiom_seq_push_index_same, vstd::seq::axiom_seq_push_index_different;

/// One day of the remote calendar: its date, activity count and display
/// color, all copied verbatim from the service's response.
#[derive(Debug, PartialEq, Eq)]
pub struct ContributionDay {
    pub date: String,
    pub count: i64,
    pub color: String,
}

/// One week of the remote calendar, its days in delivered order.
#[derive(Debug, PartialEq, Eq)]
pub struct ContributionWeek {
    pub days: Vec<ContributionDay>,
}

/// One flattened record: the position of a day in the calendar (week index,
/// day index within the week, both zero-based and in delivery order) together
/// with that day's count and color.
#[derive(Debug, PartialEq, Eq)]
pub struct Contribution {
    pub week: u32,
    pub day: u32,
    pub count: i64,
    pub color: String,
}

/// Highest running day count the walk tolerates within one week. The walk
/// counts the days it has produced for the week, so an eighth day pushes the
/// count to 8, beyond the bound, and fails.
pub const DAY_BOUND: u32 = 7;

/// Highest running week count the walk tolerates. The walk counts the weeks
/// it has finished, so a 54th week pushes the count to 54, beyond the bound,
/// and fails.
pub const WEEK_BOUND: u32 = 53;

/// Number of days held by the weeks before week `w`, in delivery order.
pub open spec fn days_before(weeks: Seq<ContributionWeek>, w: int) -> int
    decreases w,
{
    if w <= 0 {
        0
    } else {
        days_before(weeks, w - 1) + weeks[w - 1].days@.len()
    }
}

/// Number of days held by the whole calendar.
pub open spec fn total_days(weeks: Seq<ContributionWeek>) -> int {
    days_before(weeks, weeks.len() as int)
}

/// Record `r` stands at position (week `w`, day `d`) and carries the data of
/// `day`.
pub open spec fn record_matches(r: Contribution, w: int, d: int, day: ContributionDay) -> bool {
    &&& r.week == w
    &&& r.day == d
    &&& r.count == day.count
    &&& r.color@ == day.color@
}

/// The record of `recs` at the flat position of (week `w`, day `d`) carries
/// that day's data.
pub open spec fn record_at(
    weeks: Seq<ContributionWeek>,
    recs: Seq<Contribution>,
    w: int,
    d: int,
) -> bool {
    record_matches(recs[days_before(weeks, w) + d], w, d, weeks[w].days@[d])
}

/// `recs` is exactly the week-major, day-minor flattening of `weeks`.
pub open spec fn flattened(weeks: Seq<ContributionWeek>, recs: Seq<Contribution>) -> bool {
    &&& recs.len() == total_days(weeks)
    &&& forall|w: int, d: int|
        0 <= w < weeks.len() && 0 <= d < weeks[w].days@.len() ==> #[trigger] record_at(
            weeks,
            recs,
            w,
            d,
        )
}

/// Number of weeks the walk examines: every week delivered, or the first 54
/// when more came (the week bound trips before a 55th week is reached).
pub open spec fn scanned_weeks(weeks: Seq<ContributionWeek>) -> int {
    if weeks.len() <= WEEK_BOUND + 1 {
        weeks.len() as int
    } else {
        WEEK_BOUND + 1
    }
}

/// Week `w` is the first examined week holding an eighth day: the walk fails
/// there with `InvalidDay`.
pub open spec fn day_overflow_at(weeks: Seq<ContributionWeek>, w: int) -> bool {
    &&& 0 <= w < scanned_weeks(weeks)
    &&& weeks[w].days@.len() > DAY_BOUND
    &&& forall|v: int| 0 <= v < w ==> (#[trigger] weeks[v].days@.len()) <= DAY_BOUND
}

/// Some examined week holds an eighth day.
pub open spec fn has_day_overflow(weeks: Seq<ContributionWeek>) -> bool {
    exists|w: int| day_overflow_at(weeks, w)
}

/// The calendar stays within both defensive bounds: at most 53 weeks, none
/// of them holding more than 7 days. The walk succeeds exactly on such
/// calendars.
pub open spec fn calendar_in_bounds(weeks: Seq<ContributionWeek>) -> bool {
    &&& weeks.len() <= WEEK_BOUND
    &&& forall|w: int| 0 <= w < weeks.len() ==> (#[trigger] weeks[w].days@.len()) <= DAY_BOUND
}

proof fn lemma_days_before_mono(weeks: Seq<ContributionWeek>, a: int, b: int)
    requires
        0 <= a <= b,
    ensures
        days_before(weeks, a) <= days_before(weeks, b),
    decreases b,
{
    if a < b {
        lemma_days_before_mono(weeks, a, b - 1);
    }
}

/// How one record may immediately follow another in a flattening: the next
/// day of the same week, or day zero of a later week, the predecessor having
/// closed its own week and every week in between being empty.
pub open spec fn follows(
    weeks: Seq<ContributionWeek>,
    prev: Contribution,
    next: Contribution,
) -> bool {
    ||| (next.week == prev.week && next.day == prev.day + 1)
    ||| (next.week > prev.week && next.day == 0 && prev.day + 1 == weeks[
        prev.week as int
    ].days@.len() && (forall|v: int|
        prev.week < v < next.week ==> (#[trigger] weeks[v].days@.len()) == 0))
}

/// Flat position `i` falls on day `d` of week `w`.
pub open spec fn decomposes(weeks: Seq<ContributionWeek>, i: int, w: int, d: int) -> bool {
    &&& 0 <= w < weeks.len()
    &&& 0 <= d < weeks[w].days@.len()
    &&& i == days_before(weeks, w) + d
}

proof fn lemma_index_decompose(weeks: Seq<ContributionWeek>, upto: int, i: int)
    requires
        0 <= upto <= weeks.len(),
        0 <= i < days_before(weeks, upto),
    ensures
        exists|w: int, d: int| #[trigger] decomposes(weeks, i, w, d),
    decreases upto,
{
    if upto > 0 {
        if i < days_before(weeks, upto - 1) {
            lemma_index_decompose(weeks, upto - 1, i);
        } else {
            lemma_days_before_mono(weeks, 0, upto - 1);
            assert(decomposes(weeks, i, upto - 1, i - days_before(weeks, upto - 1)));
        }
    }
}

proof fn lemma_decompose_unique(
    weeks: Seq<ContributionWeek>,
    i: int,
    w1: int,
    d1: int,
    w2: int,
    d2: int,
)
    requires
        decomposes(weeks, i, w1, d1),
        decomposes(weeks, i, w2, d2),
    ensures
        w1 == w2,
        d1 == d2,
{
    if w1 < w2 {
        assert(days_before(weeks, w1 + 1) == days_before(weeks, w1) + weeks[w1].days@.len());
        lemma_days_before_mono(weeks, w1 + 1, w2);
        assert(false);
    } else if w2 < w1 {
        assert(days_before(weeks, w2 + 1) == days_before(weeks, w2) + weeks[w2].days@.len());
        lemma_days_before_mono(weeks, w2 + 1, w1);
        assert(false);
    }
}

/// Delivery order is preserved: in the flattening of an in-bounds calendar,
/// each record's (week, day) position strictly follows its predecessor's in
/// week-major, day-minor order with no gaps: it is the next day of the same
/// week, or day zero of the next week holding any days at all, the
/// predecessor having closed its own week.
pub proof fn lemma_delivery_order(weeks: Seq<ContributionWeek>, recs: Seq<Contribution>)
    requires
        calendar_in_bounds(weeks),
        flattened(weeks, recs),
    ensures
        forall|i: int| 1 <= i < recs.len() ==> follows(weeks, recs[i - 1], #[trigger] recs[i]),
{
    assert forall|i: int| 1 <= i < recs.len() implies follows(weeks, recs[i - 1], #[trigger] recs[i]) by {
        lemma_index_decompose(weeks, weeks.len() as int, i - 1);
        lemma_index_decompose(weeks, weeks.len() as int, i);
        let (w1, d1) = choose|w: int, d: int| #[trigger] decomposes(weeks, i - 1, w, d);
        let (w2, d2) = choose|w: int, d: int| #[trigger] decomposes(weeks, i, w, d);
        assert(record_at(weeks, recs, w1, d1));
        assert(record_at(weeks, recs, w2, d2));
        if d1 + 1 < weeks[w1].days@.len() {
            assert(decomposes(weeks, i, w1, d1 + 1));
            lemma_decompose_unique(weeks, i, w2, d2, w1, d1 + 1);
        } else {
            assert(days_before(weeks, w1 + 1) == days_before(weeks, w1) + weeks[w1].days@.len());
            if w2 <= w1 {
                assert(days_before(weeks, w2 + 1) == days_before(weeks, w2)
                    + weeks[w2].days@.len());
                lemma_days_before_mono(weeks, w2 + 1, w1 + 1);
                assert(false);
            }
            lemma_days_before_mono(weeks, w1 + 1, w2);
            assert(d2 == 0);
            assert forall|v: int| w1 < v < w2 implies (#[trigger] weeks[v].days@.len()) == 0 by {
                lemma_days_before_mono(weeks, w1 + 1, v);
                assert(days_before(weeks, v + 1) == days_before(weeks, v) + weeks[v].days@.len());
                lemma_days_before_mono(weeks, v + 1, w2);
            }
        }
    }
}

/// Walks the delivered calendar week by week and, within each week, day by
/// day, producing one record per day with the count and color copied
/// verbatim. A response without a user fails with `NoUserFound`; an eighth
/// day within a week fails with `InvalidDay` naming the running day count
/// and that day's date; a 54th finished week fails with `InvalidWeek` naming
/// the running week count. Otherwise every delivered day appears, in
/// week-major, day-minor order.
#[verifier::loop_isolation(false)]
pub fn flatten_contributions(user: Option<Vec<ContributionWeek>>) -> (r: Result<
    Vec<Contribution>,
    FetchError,
>)
    ensures
        user is None <==> r == Err::<Vec<Contribution>, FetchError>(FetchError::NoUserFound),
        user matches Some(weeks) ==> {
            &&& (has_day_overflow(weeks@) ==> (r matches Err(e)
                && e matches FetchError::InvalidDay { day, date } && day == DAY_BOUND + 1 && (
            exists|w: int|
                #[trigger] day_overflow_at(weeks@, w) && date@ == weeks@[w].days@[DAY_BOUND as int].date@)))
            &&& (!has_day_overflow(weeks@) && weeks@.len() > WEEK_BOUND ==> (r matches Err(e)
                && e matches FetchError::InvalidWeek { week } && week == WEEK_BOUND + 1))
            &&& (!has_day_overflow(weeks@) && weeks@.len() <= WEEK_BOUND ==> (r matches Ok(recs)
                && flattened(weeks@, recs@)))
            &&& (calendar_in_bounds(weeks@) <==> r is Ok)
        },
{
    match user {
        None => Err(FetchError::NoUserFound),
        Some(weeks) => {
            let mut contributions: Vec<Contribution> = Vec::new();
            let mut w: usize = 0;
            while w < weeks.len()
                invariant
                    w <= weeks@.len(),
                    w <= WEEK_BOUND,
                    forall|v: int| 0 <= v < w ==> (#[trigger] weeks@[v].days@.len()) <= DAY_BOUND,
                    contributions@.len() == days_before(weeks@, w as int),
                    forall|wi: int, di: int|
                        0 <= wi < w && 0 <= di < weeks@[wi].days@.len() ==> #[trigger] record_at(
                            weeks@,
                            contributions@,
                            wi,
                            di,
                        ),
                decreases weeks@.len() - w,
            {
                let mut d: usize = 0;
                while d < weeks[w].days.len()
                    invariant
                        w < weeks@.len(),
                        w <= WEEK_BOUND,
                        d <= weeks@[w as int].days@.len(),
                        d <= DAY_BOUND,
                        forall|v: int|
                            0 <= v < w ==> (#[trigger] weeks@[v].days@.len()) <= DAY_BOUND,
                        contributions@.len() == days_before(weeks@, w as int) + d,
                        forall|wi: int, di: int|
                            0 <= wi < w && 0 <= di < weeks@[wi].days@.len() ==> #[trigger] record_at(
                                weeks@,
                                contributions@,
                                wi,
                                di,
                            ),
                        forall|di: int|
                            0 <= di < d ==> #[trigger] record_at(
                                weeks@,
                                contributions@,
                                w as int,
                                di,
                            ),
                    decreases weeks@[w as int].days@.len() - d,
                {
                    let day = &weeks[w].days[d];
                    let record = Contribution {
                        week: w as u32,
                        day: d as u32,
                        count: day.count,
                        color: String::from_str(day.color.as_str()),
                    };
                    let ghost pre = contributions@;
                    contributions.push(record);
                    proof {
                        assert forall|wi: int, di: int|
                            0 <= wi < w && 0 <= di < weeks@[wi].days@.len()
                            implies #[trigger] record_at(weeks@, contributions@, wi, di) by {
                            assert(record_at(weeks@, pre, wi, di));
                            assert(days_before(weeks@, wi + 1) == days_before(weeks@, wi)
                                + weeks@[wi].days@.len());
                            lemma_days_before_mono(weeks@, 0, wi);
                            lemma_days_before_mono(weeks@, wi + 1, w as int);
                            assert(0 <= days_before(weeks@, wi) + di < pre.len());
                            assert(pre.push(record)[days_before(weeks@, wi) + di] == pre[
                                days_before(weeks@, wi) + di]);
                        }
                        assert forall|di: int|
                            0 <= di <= d implies #[trigger] record_at(
                            weeks@,
                            contributions@,
                            w as int,
                            di,
                        ) by {
                            lemma_days_before_mono(weeks@, 0, w as int);
                            if di < d {
                                assert(record_at(weeks@, pre, w as int, di));
                                assert(pre.push(record)[days_before(weeks@, w as int) + di] == pre[
                                    days_before(weeks@, w as int) + di]);
                            } else {
                                assert(days_before(weeks@, w as int) + di == pre.len());
                                assert(pre.push(record)[pre.len() as int] == record);
                            }
                        }
                    }
                    if d + 1 > DAY_BOUND as usize {
                        proof {
                            assert(day_overflow_at(weeks@, w as int));
                        }
                        return Err(
                            FetchError::InvalidDay {
                                day: (d + 1) as u32,
                                date: String::from_str(day.date.as_str()),
                            },
                        );
                    }
                    d = d + 1;
                }
                proof {
                    assert(days_before(weeks@, w as int + 1) == days_before(weeks@, w as int)
                        + weeks@[w as int].days@.len());
                }
                w = w + 1;
                if w > WEEK_BOUND as usize {
                    proof {
                        assert(!has_day_overflow(weeks@)) by {
                            assert forall|v: int| 0 <= v < scanned_weeks(weeks@) implies (
                            #[trigger] weeks@[v].days@.len()) <= DAY_BOUND by {}
                        }
                    }
                    return Err(FetchError::InvalidWeek { week: w as u32 });
                }
            }
            proof {
                assert(!has_day_overflow(weeks@)) by {
                    assert forall|v: int| 0 <= v < scanned_weeks(weeks@) implies (
                    #[trigger] weeks@[v].days@.len()) <= DAY_BOUND by {}
                }
            }
            Ok(contributions)
        },
    }
}

} // verus!
