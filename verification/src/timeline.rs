//! The history of a channel: what its two sides announced, instant by
//! instant.

use crate::history::{
    axis, axis_for, deduplicate_consecutive_points, run_ends, scale_x, scale_y, x_of, y_of, Axis,
    ChartType,
};
use crate::seqs::{last_picked, last_position, picked, Pick};
use vstd::prelude::*;

verus! {

/// What one side of a channel announced at an instant.
#[derive(Debug, Clone, Copy, PartialEq, Eq, Structural)]
pub struct Reading {
    /// When the snapshot was taken, in seconds since 1970.
    pub timestamp: u32,
    /// The fee rate, in ppm.
    pub fee_per_millionth: u32,
    /// The largest HTLC, in sat.
    pub htlc_maximum: u32,
}

/// Selects the readings of an instant.
pub struct At {
    pub timestamp: u32,
}

impl Pick<Reading> for At {
    open spec fn picks(&self, item: &Reading) -> bool {
        item.timestamp == self.timestamp
    }

    fn accepts(&self, item: &Reading) -> (r: bool) {
        item.timestamp == self.timestamp
    }
}

/// What a side announced at the instant `t`: its last reading of that
/// instant, if it has any.
pub open spec fn announced_at(readings: Seq<Reading>, t: u32) -> Option<Reading> {
    last_picked(readings, At { timestamp: t })
}

/// Whether one of the readings is of the instant `t`.
pub open spec fn occurs(readings: Seq<Reading>, t: u32) -> bool {
    exists|k: int| 0 <= k < readings.len() && (#[trigger] readings[k]).timestamp == t
}

/// What the two sides of a channel had announced at an instant.
#[derive(Debug, Clone, Copy, PartialEq, Eq, Structural)]
pub struct Moment {
    pub timestamp: u32,
    pub first: Option<Reading>,
    pub second: Option<Reading>,
}

/// Whether what a side announced at a moment is of that moment.
pub open spec fn side_timed(side: Option<Reading>, t: u32) -> bool {
    side matches Some(r) ==> r.timestamp == t
}

/// Whether every reading of the moments is of its moment.
pub open spec fn timed(line: Seq<Moment>) -> bool {
    forall|i: int|
        0 <= i < line.len() ==> side_timed((#[trigger] line[i]).first, line[i].timestamp)
            && side_timed(line[i].second, line[i].timestamp)
}

/// Whether the instants ascend, none twice.
pub open spec fn ascending(instants: Seq<u32>) -> bool {
    forall|i: int, j: int|
        #![trigger instants[i], instants[j]]
        0 <= i < j < instants.len() ==> instants[i] < instants[j]
}

/// The instants of the moments.
pub open spec fn instants_of(line: Seq<Moment>) -> Seq<u32> {
    Seq::new(line.len(), |i: int| line[i].timestamp)
}

/// Whether `line` is the history of a channel whose sides announced
/// `first` and `second`: one moment for each instant of a reading, in
/// ascending order, with what each side announced at it.
pub open spec fn is_timeline(first: Seq<Reading>, second: Seq<Reading>, line: Seq<Moment>) -> bool {
    &&& ascending(instants_of(line))
    &&& forall|i: int|
        0 <= i < line.len() ==> (#[trigger] line[i]).first == announced_at(first, line[i].timestamp)
            && line[i].second == announced_at(second, line[i].timestamp)
    &&& forall|t: u32| #[trigger]
        instants_of(line).contains(t) <==> occurs(first, t) || occurs(second, t)
}

/// Puts the instant `t` at its place among ascending instants, unless
/// it is there already.
fn insert_instant(out: &mut Vec<u32>, t: u32)
    requires
        ascending(old(out)@),
    ensures
        ascending(final(out)@),
        forall|v: u32| #[trigger] final(out)@.contains(v) <==> old(out)@.contains(v) || v == t,
{
    let ghost before = out@;
    let mut j: usize = 0;
    while j < out.len() && out[j] < t
        invariant
            j <= out.len(),
            out@ == before,
            forall|k: int| 0 <= k < j ==> out@[k] < t,
        decreases out.len() - j,
    {
        j += 1;
    }
    if j < out.len() && out[j] == t {
        proof {
            assert(before[j as int] == t);
            assert(before.contains(t));
        }
        return ;
    }
    out.insert(j, t);
    proof {
        let after = out@;
        assert(after.len() == before.len() + 1);
        assert forall|k: int| 0 <= k < after.len() implies after[k] == (if k < j {
            before[k]
        } else if k == j {
            t
        } else {
            before[k - 1]
        }) by {}
        assert forall|k: int| j <= k < before.len() implies before[k] > t by {
            if k > j {
                assert(before[j as int] < before[k]);
            }
        }
        assert forall|a: int, b: int|
            #![trigger after[a], after[b]]
            0 <= a < b < after.len() implies after[a] < after[b] by {
            if b < j {
                assert(before[a] < before[b]);
            } else if b == j {
            } else if a < j {
                assert(before[b - 1] > t);
            } else if a == j {
                assert(before[b - 1] > t);
            } else {
                assert(before[a - 1] < before[b - 1]);
            }
        }
        assert forall|v: u32| #[trigger] after.contains(v) <==> before.contains(v) || v == t by {
            if after.contains(v) {
                let k = choose|k: int| 0 <= k < after.len() && after[k] == v;
                if k < j {
                    assert(before[k] == v);
                } else if k > j {
                    assert(before[k - 1] == v);
                }
            }
            if before.contains(v) {
                let k = choose|k: int| 0 <= k < before.len() && before[k] == v;
                if k < j {
                    assert(after[k] == v);
                } else {
                    assert(after[k + 1] == v);
                }
            }
            if v == t {
                assert(after[j as int] == v);
            }
        }
    }
}

/// Puts the instants of the readings at their places among ascending
/// instants.
fn add_instants(out: &mut Vec<u32>, readings: &Vec<Reading>)
    requires
        ascending(old(out)@),
    ensures
        ascending(final(out)@),
        forall|v: u32| #[trigger]
            final(out)@.contains(v) <==> old(out)@.contains(v) || occurs(readings@, v),
{
    let ghost before = out@;
    let mut i: usize = 0;
    while i < readings.len()
        invariant
            i <= readings.len(),
            ascending(out@),
            forall|v: u32| #[trigger]
                out@.contains(v) <==> before.contains(v) || occurs(readings@.take(i as int), v),
        decreases readings.len() - i,
    {
        let ghost seen = readings@.take(i as int);
        let ghost next = readings@.take(i + 1);
        let ghost mid = out@;
        let t = readings[i].timestamp;
        insert_instant(out, t);
        proof {
            assert forall|v: u32| #[trigger]
                out@.contains(v) <==> before.contains(v) || occurs(next, v) by {
                if occurs(next, v) {
                    let k = choose|k: int| 0 <= k < next.len() && (#[trigger] next[k]).timestamp == v;
                    if k < i {
                        assert(seen[k].timestamp == v);
                    }
                }
                if occurs(seen, v) {
                    let k = choose|k: int| 0 <= k < seen.len() && (#[trigger] seen[k]).timestamp == v;
                    assert(next[k].timestamp == v);
                }
                if v == t {
                    assert(next[i as int].timestamp == v);
                }
                assert(mid.contains(v) <==> before.contains(v) || occurs(seen, v));
            }
        }
        i += 1;
    }
    proof {
        assert(readings@.take(i as int) =~= readings@);
    }
}

/// What a side announced at the instant `t`.
fn reading_at(readings: &Vec<Reading>, t: u32) -> (r: Option<Reading>)
    ensures
        r == announced_at(readings@, t),
        r is Some <==> occurs(readings@, t),
        side_timed(r, t),
{
    let sel = At { timestamp: t };
    match last_position(readings, &sel) {
        Some(i) => {
            proof {
                assert(readings@[i as int].timestamp == t);
            }
            Some(readings[i])
        },
        None => {
            proof {
                if occurs(readings@, t) {
                    let k = choose|k: int|
                        0 <= k < readings@.len() && (#[trigger] readings@[k]).timestamp == t;
                    readings@.lemma_filter_contains(crate::seqs::picker(sel), k);
                    assert(picked(readings@, sel).contains(readings@[k]));
                }
            }
            None
        },
    }
}

/// The history of a channel, instant by instant in ascending order.
#[derive(Debug)]
pub struct Timeline {
    moments: Vec<Moment>,
}

impl Timeline {
    #[verifier::type_invariant]
    spec fn in_order(self) -> bool {
        ascending(instants_of(self.moments@)) && timed(self.moments@)
    }

    /// The moments of the history.
    pub closed spec fn line(&self) -> Seq<Moment> {
        self.moments@
    }

    /// The history of a channel whose sides announced `first` and
    /// `second`.
    pub fn of(first: &Vec<Reading>, second: &Vec<Reading>) -> (r: Timeline)
        ensures
            is_timeline(first@, second@, r.line()),
    {
        let mut instants: Vec<u32> = Vec::new();
        add_instants(&mut instants, first);
        add_instants(&mut instants, second);
        let mut moments: Vec<Moment> = Vec::new();
        let mut i: usize = 0;
        while i < instants.len()
            invariant
                i <= instants.len(),
                moments@.len() == i,
                forall|k: int|
                    0 <= k < i ==> (#[trigger] moments@[k]).timestamp == instants@[k]
                        && moments@[k].first == announced_at(first@, instants@[k])
                        && moments@[k].second == announced_at(second@, instants@[k]),
                timed(moments@),
            decreases instants.len() - i,
        {
            let t = instants[i];
            moments.push(
                Moment { timestamp: t, first: reading_at(first, t), second: reading_at(second, t) },
            );
            i += 1;
        }
        proof {
            assert(instants_of(moments@) =~= instants@);
        }
        Timeline { moments }
    }

    /// The moments of the history.
    pub fn moments(&self) -> (r: &Vec<Moment>)
        ensures
            r@ == self.line(),
            ascending(instants_of(r@)),
            timed(r@),
    {
        proof {
            use_type_invariant(self);
        }
        &self.moments
    }
}

// ---------------------------------------------------------------------
// The chart of a history
// ---------------------------------------------------------------------

/// The value of a reading that a chart shows.
pub open spec fn value_of(r: Reading, chart: ChartType) -> u32 {
    match chart {
        ChartType::Fee => r.fee_per_millionth,
        ChartType::HtlcMax => r.htlc_maximum,
    }
}

/// The value of a reading that a chart shows.
pub fn value(r: &Reading, chart: ChartType) -> (v: u32)
    ensures
        v == value_of(*r, chart),
{
    match chart {
        ChartType::Fee => r.fee_per_millionth,
        ChartType::HtlcMax => r.htlc_maximum,
    }
}

/// The value that a side shows, if it announced anything.
pub open spec fn side_value(side: Option<Reading>, chart: ChartType) -> Option<u32> {
    match side {
        Some(r) => Some(value_of(r, chart)),
        None => None,
    }
}

/// The smaller of two values, where there are two.
pub open spec fn least(a: Option<u32>, b: Option<u32>) -> Option<u32> {
    match (a, b) {
        (None, _) => b,
        (_, None) => a,
        (Some(x), Some(y)) => if x <= y {
            a
        } else {
            b
        },
    }
}

/// The larger of two values, where there are two.
pub open spec fn most(a: Option<u32>, b: Option<u32>) -> Option<u32> {
    match (a, b) {
        (None, _) => b,
        (_, None) => a,
        (Some(x), Some(y)) => if x >= y {
            a
        } else {
            b
        },
    }
}

/// The smallest value that a chart of the moments shows, if it shows
/// any.
pub open spec fn lowest_of(line: Seq<Moment>, chart: ChartType) -> Option<u32>
    decreases line.len(),
{
    if line.len() == 0 {
        None
    } else {
        least(
            least(lowest_of(line.drop_last(), chart), side_value(line.last().first, chart)),
            side_value(line.last().second, chart),
        )
    }
}

/// The largest value that a chart of the moments shows, if it shows
/// any.
pub open spec fn highest_of(line: Seq<Moment>, chart: ChartType) -> Option<u32>
    decreases line.len(),
{
    if line.len() == 0 {
        None
    } else {
        most(
            most(highest_of(line.drop_last(), chart), side_value(line.last().first, chart)),
            side_value(line.last().second, chart),
        )
    }
}

/// Whether a side shows the value `v`.
pub open spec fn shows(m: Moment, chart: ChartType, v: u32) -> bool {
    side_value(m.first, chart) == Some(v) || side_value(m.second, chart) == Some(v)
}

/// Whether what a side shows lies between `lo` and `hi`.
pub open spec fn side_between(side: Option<Reading>, chart: ChartType, lo: u32, hi: u32) -> bool {
    side matches Some(r) ==> lo <= value_of(r, chart) <= hi
}

/// The lowest and the highest value are values that the moments show,
/// and every value that they show lies between the two; there is
/// neither exactly where no side announced anything.
pub proof fn lemma_bounds(line: Seq<Moment>, chart: ChartType)
    ensures
        lowest_of(line, chart) is Some <==> highest_of(line, chart) is Some,
        lowest_of(line, chart) is Some <==> exists|i: int|
            0 <= i < line.len() && ((#[trigger] line[i]).first is Some || line[i].second is Some),
        lowest_of(line, chart) is Some ==> {
            let lo = lowest_of(line, chart)->0;
            let hi = highest_of(line, chart)->0;
            &&& lo <= hi
            &&& exists|i: int| 0 <= i < line.len() && shows(#[trigger] line[i], chart, lo)
            &&& exists|i: int| 0 <= i < line.len() && shows(#[trigger] line[i], chart, hi)
            &&& forall|i: int|
                0 <= i < line.len() ==> side_between((#[trigger] line[i]).first, chart, lo, hi)
                    && side_between(line[i].second, chart, lo, hi)
        },
    decreases line.len(),
{
    if line.len() > 0 {
        let rest = line.drop_last();
        let last = line.last();
        lemma_bounds(rest, chart);
        assert(last == line[line.len() - 1]);
        if lowest_of(rest, chart) is Some {
            let i = choose|i: int|
                0 <= i < rest.len() && ((#[trigger] rest[i]).first is Some || rest[i].second is Some);
            assert(line[i] == rest[i]);
        }
        if lowest_of(line, chart) is Some {
            let lo = lowest_of(line, chart)->0;
            let hi = highest_of(line, chart)->0;
            if shows(last, chart, lo) {
                assert(shows(line[line.len() - 1], chart, lo));
            } else {
                let i = choose|i: int| 0 <= i < rest.len() && shows(#[trigger] rest[i], chart, lo);
                assert(line[i] == rest[i]);
            }
            if shows(last, chart, hi) {
                assert(shows(line[line.len() - 1], chart, hi));
            } else {
                let i = choose|i: int| 0 <= i < rest.len() && shows(#[trigger] rest[i], chart, hi);
                assert(line[i] == rest[i]);
            }
            assert forall|i: int| 0 <= i < line.len() implies side_between(
                (#[trigger] line[i]).first,
                chart,
                lo,
                hi,
            ) && side_between(line[i].second, chart, lo, hi) by {
                if i < rest.len() {
                    assert(line[i] == rest[i]);
                }
            }
        } else {
            assert forall|i: int| 0 <= i < line.len() implies !((#[trigger] line[i]).first is Some
                || line[i].second is Some) by {
                if i < rest.len() {
                    assert(line[i] == rest[i]);
                }
            }
        }
    }
}

/// The value axis of a chart of the moments: the axis for their
/// lowest and highest value, where they show any and the axis is not
/// cut off below them.
pub open spec fn chart_axis(line: Seq<Moment>, chart: ChartType) -> Option<Axis> {
    match (lowest_of(line, chart), highest_of(line, chart)) {
        (Some(lo), Some(hi)) => {
            let a = axis_for(lo, hi, chart);
            if a.min <= a.max {
                Some(a)
            } else {
                None
            }
        },
        _ => None,
    }
}

/// A place on a chart, held to what 32 bits can hold.
pub open spec fn pixel(v: int) -> i32 {
    if v < i32::MIN {
        i32::MIN
    } else if v > i32::MAX {
        i32::MAX
    } else {
        v as i32
    }
}

/// A place on a chart, held to what 32 bits can hold.
fn to_pixel(v: i64) -> (r: i32)
    ensures
        r == pixel(v as int),
{
    if v < i32::MIN as i64 {
        i32::MIN
    } else if v > i32::MAX as i64 {
        i32::MAX
    } else {
        v as i32
    }
}

/// A time axis and a value axis.
pub struct Frame {
    pub first_time: u32,
    pub last_time: u32,
    pub axis: Axis,
}

/// The point of a reading on a chart: where it stands, its instant and
/// its value.
pub open spec fn point_of(r: Reading, chart: ChartType, frame: Frame) -> (i32, i32, u32, u32) {
    (
        pixel(x_of(r.timestamp, frame.first_time, frame.last_time)),
        pixel(y_of(value_of(r, chart), frame.axis)),
        r.timestamp,
        value_of(r, chart),
    )
}

/// One side of a moment.
pub open spec fn side_of(m: Moment, second: bool) -> Option<Reading> {
    if second {
        m.second
    } else {
        m.first
    }
}

/// The points of one side of the first `upto` moments, in their order.
pub open spec fn side_points(
    line: Seq<Moment>,
    upto: int,
    second: bool,
    chart: ChartType,
    frame: Frame,
) -> Seq<(i32, i32, u32, u32)>
    decreases upto,
{
    if upto <= 0 {
        Seq::empty()
    } else {
        match side_of(line[upto - 1], second) {
            Some(r) => side_points(line, upto - 1, second, chart, frame).push(
                point_of(r, chart, frame),
            ),
            None => side_points(line, upto - 1, second, chart, frame),
        }
    }
}

/// The marks of a value axis: its ends and four values between them
/// at equal distances, rounded down.
pub open spec fn value_marks_of(axis: Axis) -> Seq<u64> {
    Seq::new(6, |i: int| (axis.min + ((axis.max - axis.min) * i) / 5) as u64)
}

/// The marks of a time axis: its ends and five instants between them
/// at equal distances, rounded down.
pub open spec fn time_marks_of(first_time: u32, last_time: u32) -> Seq<u32> {
    Seq::new(7, |i: int| (first_time + ((last_time - first_time) * i) / 6) as u32)
}

/// What a chart of a history shows.
#[derive(Debug, Clone)]
pub struct Chart {
    /// The instant of the first moment.
    pub first_time: u32,
    /// The instant of the last moment.
    pub last_time: u32,
    pub axis: Axis,
    /// The points of the first side; of each run of the same value its
    /// first and its last point.
    pub first_points: Vec<(i32, i32, u32, u32)>,
    /// The points of the second side.
    pub second_points: Vec<(i32, i32, u32, u32)>,
    pub value_marks: Vec<u64>,
    pub time_marks: Vec<u32>,
}

impl Chart {
    /// The axes of the chart.
    pub open spec fn frame(&self) -> Frame {
        Frame { first_time: self.first_time, last_time: self.last_time, axis: self.axis }
    }
}

impl Timeline {
    /// The lowest and the highest value that a chart of the history
    /// shows.
    pub fn value_bounds(&self, chart: ChartType) -> (r: Option<(u32, u32)>)
        ensures
            r is Some <==> lowest_of(self.line(), chart) is Some,
            r matches Some(b) ==> lowest_of(self.line(), chart) == Some(b.0) && highest_of(
                self.line(),
                chart,
            ) == Some(b.1),
    {
        let mut lowest: Option<u32> = None;
        let mut highest: Option<u32> = None;
        let mut i: usize = 0;
        proof {
            assert(self.moments@.take(0) =~= Seq::<Moment>::empty());
        }
        while i < self.moments.len()
            invariant
                i <= self.moments.len(),
                lowest == lowest_of(self.moments@.take(i as int), chart),
                highest == highest_of(self.moments@.take(i as int), chart),
            decreases self.moments.len() - i,
        {
            proof {
                let next = self.moments@.take(i + 1);
                assert(next.drop_last() =~= self.moments@.take(i as int));
                assert(next.last() == self.moments@[i as int]);
            }
            let m = &self.moments[i];
            let a = match &m.first {
                Some(r) => Some(value(r, chart)),
                None => None,
            };
            let b = match &m.second {
                Some(r) => Some(value(r, chart)),
                None => None,
            };
            lowest = smaller(smaller(lowest, a), b);
            highest = larger(larger(highest, a), b);
            i += 1;
        }
        proof {
            assert(self.moments@.take(i as int) =~= self.moments@);
            lemma_bounds(self.moments@, chart);
        }
        match (lowest, highest) {
            (Some(lo), Some(hi)) => Some((lo, hi)),
            _ => None,
        }
    }

    /// The points of one side of the history on a chart.
    fn points(&self, second: bool, chart: ChartType, frame: &Frame) -> (r: Vec<
        (i32, i32, u32, u32),
    >)
        requires
            self.line().len() > 0,
            frame.first_time == self.line()[0].timestamp,
            frame.axis.min <= frame.axis.max,
            lowest_of(self.line(), chart) matches Some(lo) && frame.axis.min <= lo,
        ensures
            r@ == side_points(self.line(), self.line().len() as int, second, chart, *frame),
    {
        proof {
            use_type_invariant(self);
            lemma_bounds(self.moments@, chart);
        }
        let ghost lo = lowest_of(self.moments@, chart)->0;
        let ghost hi = highest_of(self.moments@, chart)->0;
        let mut out: Vec<(i32, i32, u32, u32)> = Vec::new();
        let mut i: usize = 0;
        while i < self.moments.len()
            invariant
                i <= self.moments.len(),
                ascending(instants_of(self.moments@)),
                timed(self.moments@),
                frame.first_time == self.moments@[0].timestamp,
                frame.axis.min <= frame.axis.max,
                frame.axis.min <= lo,
                forall|k: int|
                    0 <= k < self.moments@.len() ==> side_between(
                        (#[trigger] self.moments@[k]).first,
                        chart,
                        lo,
                        hi,
                    ) && side_between(self.moments@[k].second, chart, lo, hi),
                out@ == side_points(self.moments@, i as int, second, chart, *frame),
            decreases self.moments.len() - i,
        {
            let m = &self.moments[i];
            let side = if second {
                &m.second
            } else {
                &m.first
            };
            proof {
                assert(instants_of(self.moments@)[0] == self.moments@[0].timestamp);
                assert(instants_of(self.moments@)[i as int] == m.timestamp);
                if i > 0 {
                    assert(instants_of(self.moments@)[0] < instants_of(self.moments@)[i as int]);
                }
            }
            match side {
                Some(r) => {
                    let v = value(r, chart);
                    proof {
                        assert(side_between(self.moments@[i as int].first, chart, lo, hi));
                        assert(side_between(self.moments@[i as int].second, chart, lo, hi));
                        assert(side_timed(self.moments@[i as int].first, m.timestamp));
                        assert(side_timed(self.moments@[i as int].second, m.timestamp));
                    }
                    let x = scale_x(r.timestamp, frame.first_time, frame.last_time);
                    let y = scale_y(v, &frame.axis);
                    out.push((to_pixel(x), to_pixel(y), r.timestamp, v));
                },
                None => {},
            }
            i += 1;
        }
        out
    }
}

/// The marks of a value axis.
fn value_marks(axis: &Axis) -> (r: Vec<u64>)
    requires
        axis.min <= axis.max,
        axis.max <= 0x2_0000_0000,
    ensures
        r@ == value_marks_of(*axis),
{
    let span: u64 = axis.max - axis.min;
    let mut out: Vec<u64> = Vec::new();
    let mut i: u64 = 0;
    while i < 6
        invariant
            i <= 6,
            span == axis.max - axis.min,
            span <= 0x2_0000_0000,
            axis.max <= 0x2_0000_0000,
            out@.len() == i,
            forall|k: int| 0 <= k < i ==> out@[k] == value_marks_of(*axis)[k],
        decreases 6 - i,
    {
        assert(span * i <= 0x2_0000_0000 * 6 && (span * i) / 5 <= 0x2_0000_0000 * 6)
            by (nonlinear_arith)
            requires
                0 <= span <= 0x2_0000_0000,
                0 <= i <= 6,
        ;
        out.push(axis.min + (span * i) / 5);
        i += 1;
    }
    proof {
        assert(out@ =~= value_marks_of(*axis));
    }
    out
}

/// The marks of a time axis.
fn time_marks(first_time: u32, last_time: u32) -> (r: Vec<u32>)
    requires
        first_time <= last_time,
    ensures
        r@ == time_marks_of(first_time, last_time),
{
    let span: u64 = (last_time - first_time) as u64;
    let mut out: Vec<u32> = Vec::new();
    let mut i: u64 = 0;
    while i < 7
        invariant
            i <= 7,
            span == last_time - first_time,
            first_time <= last_time,
            out@.len() == i,
            forall|k: int| 0 <= k < i ==> out@[k] == time_marks_of(first_time, last_time)[k],
        decreases 7 - i,
    {
        assert(span * i <= 0xffff_ffff * 6 && (span * i) / 6 <= span) by (nonlinear_arith)
            requires
                0 <= span <= 0xffff_ffff,
                0 <= i <= 6,
        ;
        let mark: u64 = first_time as u64 + (span * i) / 6;
        out.push(mark as u32);
        i += 1;
    }
    proof {
        assert(out@ =~= time_marks_of(first_time, last_time));
    }
    out
}

impl Timeline {
    /// What a chart of the history shows: its axes, the points of both
    /// sides, and the marks of the axes. There is no chart for a
    /// history without readings, nor where every value lies above the
    /// end of the value axis.
    pub fn chart(&self, chart: ChartType) -> (r: Option<Chart>)
        ensures
            r is Some <==> chart_axis(self.line(), chart) is Some,
            r matches Some(c) ==> {
                &&& self.line().len() > 0
                &&& c.first_time == self.line().first().timestamp
                &&& c.last_time == self.line().last().timestamp
                &&& chart_axis(self.line(), chart) == Some(c.axis)
                &&& c.first_points@ == run_ends(
                    side_points(self.line(), self.line().len() as int, false, chart, c.frame()),
                    side_points(
                        self.line(),
                        self.line().len() as int,
                        false,
                        chart,
                        c.frame(),
                    ).len() as int,
                )
                &&& c.second_points@ == run_ends(
                    side_points(self.line(), self.line().len() as int, true, chart, c.frame()),
                    side_points(
                        self.line(),
                        self.line().len() as int,
                        true,
                        chart,
                        c.frame(),
                    ).len() as int,
                )
                &&& c.value_marks@ == value_marks_of(c.axis)
                &&& c.time_marks@ == time_marks_of(c.first_time, c.last_time)
            },
    {
        proof {
            use_type_invariant(self);
            lemma_bounds(self.moments@, chart);
        }
        let (lo, hi) = match self.value_bounds(chart) {
            Some(b) => b,
            None => {
                return None;
            },
        };
        let value_axis = axis(lo, hi, chart);
        if value_axis.min > value_axis.max {
            return None;
        }
        let n = self.moments.len();
        let first_time = self.moments[0].timestamp;
        let last_time = self.moments[n - 1].timestamp;
        proof {
            assert(instants_of(self.moments@)[0] == first_time);
            assert(instants_of(self.moments@)[n - 1] == last_time);
            if n > 1 {
                assert(instants_of(self.moments@)[0] < instants_of(self.moments@)[n - 1]);
            }
        }
        let frame = Frame { first_time, last_time, axis: value_axis };
        let first_points = deduplicate_consecutive_points(self.points(false, chart, &frame));
        let second_points = deduplicate_consecutive_points(self.points(true, chart, &frame));
        Some(
            Chart {
                first_time,
                last_time,
                axis: value_axis,
                first_points,
                second_points,
                value_marks: value_marks(&value_axis),
                time_marks: time_marks(first_time, last_time),
            },
        )
    }
}

/// The smaller of two values, where there are two.
fn smaller(a: Option<u32>, b: Option<u32>) -> (r: Option<u32>)
    ensures
        r == least(a, b),
{
    match (a, b) {
        (None, _) => b,
        (_, None) => a,
        (Some(x), Some(y)) => if x <= y {
            a
        } else {
            b
        },
    }
}

/// The larger of two values, where there are two.
fn larger(a: Option<u32>, b: Option<u32>) -> (r: Option<u32>)
    ensures
        r == most(a, b),
{
    match (a, b) {
        (None, _) => b,
        (_, None) => a,
        (Some(x), Some(y)) => if x >= y {
            a
        } else {
            b
        },
    }
}

} // verus!
