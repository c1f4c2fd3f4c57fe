//! Helpers for the charts of a channel's history: calendar dates,
//! shortened node ids, the points worth drawing and where they go.

use crate::seqs::distinct;
use crate::text::{
    chars_le, chars_of, decimal, decimal_u64, distinct_strings, lex_le, string_of, views,
};
use vstd::prelude::*;

verus! {

// ---------------------------------------------------------------------
// Calendar dates
// ---------------------------------------------------------------------

/// The seconds of a day.
pub const DAY_SECONDS: u32 = 86400;

/// Whether `year` is a leap year of the Gregorian calendar.
pub open spec fn leap(year: int) -> bool {
    (year % 4 == 0 && year % 100 != 0) || year % 400 == 0
}

/// The days of a year.
pub open spec fn year_days(year: int) -> int {
    if leap(year) {
        366
    } else {
        365
    }
}

/// The days of a month of a year.
pub open spec fn month_days(year: int, month: int) -> int {
    if month == 2 {
        if leap(year) {
            29
        } else {
            28
        }
    } else if month == 4 || month == 6 || month == 9 || month == 11 {
        30
    } else {
        31
    }
}

/// The days from the first of January 1970 to the first of January of
/// `year`.
pub open spec fn days_before_year(year: int) -> int
    decreases year,
{
    if year <= 1970 {
        0
    } else {
        days_before_year(year - 1) + year_days(year - 1)
    }
}

/// The days from the first of January of `year` to the first of the
/// month `month`.
pub open spec fn days_before_month(year: int, month: int) -> int
    decreases month,
{
    if month <= 1 {
        0
    } else {
        days_before_month(year, month - 1) + month_days(year, month - 1)
    }
}

/// A day of the calendar.
#[derive(Debug, Clone, Copy, PartialEq, Eq, Structural)]
pub struct Date {
    pub year: u32,
    pub month: u32,
    pub day: u32,
}

/// Whether `d` is the day that lies `days` days after the first of
/// January 1970.
pub open spec fn is_date_of(days: int, d: Date) -> bool {
    &&& d.year >= 1970
    &&& 1 <= d.month <= 12
    &&& 1 <= d.day <= month_days(d.year as int, d.month as int)
    &&& days == days_before_year(d.year as int) + days_before_month(d.year as int, d.month as int)
        + d.day - 1
}

/// Whether a year is a leap year.
pub fn is_leap_year(year: u32) -> (r: bool)
    ensures
        r == leap(year as int),
{
    (year % 4 == 0 && year % 100 != 0) || (year % 400 == 0)
}

/// The months of a year make up the year.
proof fn lemma_months_of_year(year: int)
    ensures
        days_before_month(year, 13) == year_days(year),
{
    reveal_with_fuel(days_before_month, 14);
}

/// Later months start later, and every month starts within its year.
proof fn lemma_months_ascend(year: int, a: int, b: int)
    requires
        1 <= a <= b <= 13,
    ensures
        days_before_month(year, a) <= days_before_month(year, b),
        b > a ==> days_before_month(year, a) + month_days(year, a) <= days_before_month(year, b),
    decreases b - a,
{
    if a < b {
        lemma_months_ascend(year, a, b - 1);
    }
}

/// Later years start later.
proof fn lemma_years_ascend(a: int, b: int)
    requires
        1970 <= a <= b,
    ensures
        days_before_year(a) <= days_before_year(b),
        b > a ==> days_before_year(a) + year_days(a) <= days_before_year(b),
    decreases b - a,
{
    if a < b {
        lemma_years_ascend(a, b - 1);
    }
}

/// A day has one date only.
pub proof fn lemma_date_unique(days: int, a: Date, b: Date)
    requires
        is_date_of(days, a),
        is_date_of(days, b),
    ensures
        a == b,
{
    let ya = a.year as int;
    let yb = b.year as int;
    lemma_months_of_year(ya);
    lemma_months_of_year(yb);
    lemma_months_ascend(ya, a.month as int, 13);
    lemma_months_ascend(yb, b.month as int, 13);
    lemma_months_ascend(ya, 1, a.month as int);
    lemma_months_ascend(yb, 1, b.month as int);
    if ya < yb {
        lemma_years_ascend(ya, yb);
    } else if yb < ya {
        lemma_years_ascend(yb, ya);
    } else if a.month < b.month {
        lemma_months_ascend(ya, a.month as int, b.month as int);
    } else if b.month < a.month {
        lemma_months_ascend(ya, b.month as int, a.month as int);
    }
}

/// The days of a month of a year.
fn days_in_month(year: u32, month: u32) -> (r: u32)
    ensures
        r == month_days(year as int, month as int),
{
    if month == 2 {
        if is_leap_year(year) {
            29
        } else {
            28
        }
    } else if month == 4 || month == 6 || month == 9 || month == 11 {
        30
    } else {
        31
    }
}

/// The date of an instant given in seconds since the first of January
/// 1970, in universal time.
pub fn date_of(timestamp: u32) -> (r: Date)
    ensures
        is_date_of(timestamp as int / 86400, r),
{
    let days: u32 = timestamp / DAY_SECONDS;
    let mut year: u32 = 1970;
    let mut remaining: u32 = days;
    loop
        invariant
            1970 <= year,
            year - 1970 + remaining <= days,
            days <= 49710,
            days == days_before_year(year as int) + remaining,
        ensures
            remaining < year_days(year as int),
        decreases remaining,
    {
        let in_year: u32 = if is_leap_year(year) {
            366
        } else {
            365
        };
        if remaining < in_year {
            break ;
        }
        remaining -= in_year;
        year += 1;
    }
    let mut month: u32 = 1;
    let mut day: u32 = remaining + 1;
    proof {
        lemma_months_of_year(year as int);
    }
    while day > days_in_month(year, month)
        invariant
            1 <= month <= 12,
            1 <= day,
            day + days_before_month(year as int, month as int) == remaining + 1,
            remaining < year_days(year as int),
            days_before_month(year as int, 13) == year_days(year as int),
        decreases 12 - month,
    {
        proof {
            lemma_months_ascend(year as int, month as int + 1, 13);
        }
        day -= days_in_month(year, month);
        month += 1;
    }
    Date { year, month, day }
}

/// `n` in decimal digits, with zeros in front up to `width` digits.
pub open spec fn padded(n: nat, width: nat) -> Seq<char> {
    let digits = decimal(n);
    if digits.len() >= width {
        digits
    } else {
        Seq::new((width - digits.len()) as nat, |i: int| '0') + digits
    }
}

/// A date as text: the year in four digits, the month and the day in
/// two, with hyphens between them.
pub open spec fn date_text(d: Date) -> Seq<char> {
    padded(d.year as nat, 4) + "-"@ + padded(d.month as nat, 2) + "-"@ + padded(d.day as nat, 2)
}

/// Appends `n` to `out`, with zeros in front up to `width` digits.
fn push_padded(out: &mut String, n: u32, width: usize)
    ensures
        final(out)@ == old(out)@ + padded(n as nat, width as nat),
{
    let digits = decimal_u64(n as u64);
    let len = digits.as_str().unicode_len();
    let mut i: usize = len;
    let ghost start = out@;
    proof {
        assert(out@ =~= start + Seq::new(0, |k: int| '0'));
    }
    while i < width
        invariant
            len <= i,
            i <= width || i == len,
            out@ == start + Seq::new((i - len) as nat, |k: int| '0'),
        decreases width - i,
    {
        out.push('0');
        proof {
            assert(out@ =~= start + Seq::new((i + 1 - len) as nat, |k: int| '0'));
        }
        i += 1;
    }
    out.append(digits.as_str());
    proof {
        assert(out@ =~= start + padded(n as nat, width as nat));
    }
}

/// The date of an instant given in seconds since the first of January
/// 1970, as text.
pub fn format_timestamp(timestamp: u32) -> (r: String)
    ensures
        exists|d: Date| is_date_of(timestamp as int / 86400, d) && r@ == date_text(d),
{
    let d = date_of(timestamp);
    let mut out = String::new();
    push_padded(&mut out, d.year, 4);
    out.push('-');
    push_padded(&mut out, d.month, 2);
    out.push('-');
    push_padded(&mut out, d.day, 2);
    proof {
        reveal_strlit("-");
        assert(out@ =~= date_text(d));
    }
    out
}

// ---------------------------------------------------------------------
// Node ids in a legend
// ---------------------------------------------------------------------

/// A node id as a legend shows it: an id of more than 16 characters
/// shortened to its first and last 8, with three dots between them.
pub open spec fn truncated_id(id: Seq<char>) -> Seq<char> {
    if id.len() > 16 {
        id.take(8) + "..."@ + id.skip(id.len() - 8)
    } else {
        id
    }
}

/// The characters of `v` from `from` up to `to`.
fn part(v: &Vec<char>, from: usize, to: usize) -> (r: String)
    requires
        from <= to <= v@.len(),
    ensures
        r@ == v@.subrange(from as int, to as int),
{
    let mut out: Vec<char> = Vec::new();
    let mut i: usize = from;
    while i < to
        invariant
            from <= i <= to,
            to <= v@.len(),
            out@ == v@.subrange(from as int, i as int),
        decreases to - i,
    {
        out.push(v[i]);
        proof {
            assert(out@ =~= v@.subrange(from as int, i + 1));
        }
        i += 1;
    }
    string_of(&out)
}

/// A node id as a legend shows it.
pub fn truncate_node_id(node_id: &str) -> (r: String)
    ensures
        r@ == truncated_id(node_id@),
{
    let v = chars_of(node_id);
    let n = v.len();
    if n > 16 {
        let mut out = part(&v, 0, 8);
        out.append("...");
        let tail = part(&v, n - 8, n);
        out.append(tail.as_str());
        proof {
            assert(v@.subrange(0, 8) =~= v@.take(8));
            assert(v@.subrange(n - 8, n as int) =~= v@.skip(n - 8));
        }
        out
    } else {
        let out = part(&v, 0, n);
        proof {
            assert(v@.subrange(0, n as int) =~= v@);
        }
        out
    }
}

// ---------------------------------------------------------------------
// The two ends of a channel
// ---------------------------------------------------------------------

/// The two ends of a channel in a stable order, given the nodes at
/// which its edges start: the two different nodes among them, the one
/// that comes first in lexicographic order first.
pub open spec fn ends_of(sources: Seq<Seq<char>>) -> Option<(Seq<char>, Seq<char>)> {
    let nodes = distinct(sources);
    if nodes.len() != 2 {
        None
    } else if lex_le(nodes[0], nodes[1]) {
        Some((nodes[0], nodes[1]))
    } else {
        Some((nodes[1], nodes[0]))
    }
}

/// The two ends of a channel in a stable order, given the nodes at
/// which its edges start; none for a channel that the graph knows from
/// one side only, or from more than two.
pub fn endpoints(sources: &Vec<String>) -> (r: Option<(String, String)>)
    ensures
        r is Some <==> ends_of(views(sources@)) is Some,
        r matches Some(pair) ==> ends_of(views(sources@)) == Some((pair.0@, pair.1@)),
{
    let nodes = distinct_strings(sources);
    if nodes.len() != 2 {
        return None;
    }
    assert(views(nodes@)[0] == nodes@[0]@);
    assert(views(nodes@)[1] == nodes@[1]@);
    let a = chars_of(nodes[0].as_str());
    let b = chars_of(nodes[1].as_str());
    if chars_le(&a, &b) {
        Some((nodes[0].clone(), nodes[1].clone()))
    } else {
        Some((nodes[1].clone(), nodes[0].clone()))
    }
}

// ---------------------------------------------------------------------
// The points worth drawing
// ---------------------------------------------------------------------

/// Whether the point at `i` starts or ends a run of points of the same
/// value: its value differs from that of the point before it or of the
/// point after it, or there is no such point.
pub open spec fn ends_run(points: Seq<(i32, i32, u32, u32)>, i: int) -> bool {
    ||| i == 0
    ||| i == points.len() - 1
    ||| points[i - 1].3 != points[i].3
    ||| points[i + 1].3 != points[i].3
}

/// Those of the first `upto` points that start or end a run, in their
/// order.
pub open spec fn run_ends(points: Seq<(i32, i32, u32, u32)>, upto: int) -> Seq<
    (i32, i32, u32, u32),
>
    decreases upto,
{
    if upto <= 0 {
        Seq::empty()
    } else if ends_run(points, upto - 1) {
        run_ends(points, upto - 1).push(points[upto - 1])
    } else {
        run_ends(points, upto - 1)
    }
}

/// Removes consecutive duplicate points, keeping the first and last of
/// each run. Points are (x, y, timestamp, value); duplicates are
/// determined by value.
pub fn deduplicate_consecutive_points(points: Vec<(i32, i32, u32, u32)>) -> (r: Vec<
    (i32, i32, u32, u32),
>)
    ensures
        r@ == run_ends(points@, points@.len() as int),
{
    let n = points.len();
    let mut out: Vec<(i32, i32, u32, u32)> = Vec::new();
    let mut i: usize = 0;
    while i < n
        invariant
            i <= n,
            n == points@.len(),
            out@ == run_ends(points@, i as int),
        decreases n - i,
    {
        let value = points[i].3;
        let keep = i == 0 || i == n - 1 || points[i - 1].3 != value || points[i + 1].3 != value;
        if keep {
            out.push(points[i]);
        }
        i += 1;
    }
    out
}

// ---------------------------------------------------------------------
// Where the points go
// ---------------------------------------------------------------------

/// What a chart shows.
#[derive(Debug, Clone, Copy, PartialEq, Eq, Structural)]
pub enum ChartType {
    /// The fee rate, in ppm.
    Fee,
    /// The largest payment, in sat.
    HtlcMax,
}

/// Where the value axis of a fee chart ends at the latest, so that
/// outliers do not flatten the chart.
pub const FEE_Y_AXIS_MAX: u64 = 4000;

/// The left edge of the plot.
pub const MARGIN_LEFT: i64 = 80;

/// The upper edge of the plot.
pub const MARGIN_TOP: i64 = 40;

/// The width of the plot.
pub const PLOT_WIDTH: i64 = 870;

/// The height of the plot.
pub const PLOT_HEIGHT: i64 = 480;

/// The range of a value axis.
#[derive(Debug, Clone, Copy, PartialEq, Eq, Structural)]
pub struct Axis {
    pub min: u64,
    pub max: u64,
}

/// The axis for values from `lowest` to `highest`: the range widened
/// on both sides by a tenth of its length, not below 0; on a fee chart
/// it ends at `FEE_Y_AXIS_MAX` at the latest.
pub open spec fn axis_for(lowest: u32, highest: u32, chart: ChartType) -> Axis {
    let span: int = if highest - lowest >= 1 {
        highest - lowest
    } else {
        1
    };
    let padding = span / 10;
    let min: int = if lowest >= padding {
        lowest - padding
    } else {
        0
    };
    let max = highest + padding;
    Axis {
        min: min as u64,
        max: if chart == ChartType::Fee && max > FEE_Y_AXIS_MAX {
            FEE_Y_AXIS_MAX
        } else {
            max as u64
        },
    }
}

/// The axis for values from `lowest` to `highest`.
pub fn axis(lowest: u32, highest: u32, chart: ChartType) -> (r: Axis)
    requires
        lowest <= highest,
    ensures
        r == axis_for(lowest, highest, chart),
{
    let span: u32 = if highest - lowest >= 1 {
        highest - lowest
    } else {
        1
    };
    let padding: u32 = span / 10;
    let min: u32 = if lowest >= padding {
        lowest - padding
    } else {
        0
    };
    let max: u64 = highest as u64 + padding as u64;
    let capped = match chart {
        ChartType::Fee => max > FEE_Y_AXIS_MAX,
        ChartType::HtlcMax => false,
    };
    Axis {
        min: min as u64,
        max: if capped {
            FEE_Y_AXIS_MAX
        } else {
            max
        },
    }
}

/// Where the instant `timestamp` stands on a time axis from `first` to
/// `last`: its share of the way, in whole units of the plot's width,
/// from the left edge.
pub open spec fn x_of(timestamp: u32, first: u32, last: u32) -> int {
    let range: int = if last - first >= 1 {
        last - first
    } else {
        1
    };
    MARGIN_LEFT + ((timestamp - first) * PLOT_WIDTH) / range
}

/// Where the instant `timestamp` stands on a time axis from `first` to
/// `last`.
pub fn scale_x(timestamp: u32, first: u32, last: u32) -> (r: i64)
    requires
        first <= timestamp,
    ensures
        r == x_of(timestamp, first, last),
{
    let range: i64 = if last > first {
        (last - first) as i64
    } else {
        1
    };
    let way: i64 = (timestamp - first) as i64 * PLOT_WIDTH;
    assert(0 <= way / range <= way) by (nonlinear_arith)
        requires
            way >= 0,
            range >= 1,
    ;
    MARGIN_LEFT + way / range
}

/// Where `value` stands on a value axis: its share of the way up, in
/// whole units of the plot's height, from the lower edge; the middle
/// of the plot on an axis without length.
pub open spec fn y_of(value: u32, axis: Axis) -> int {
    if axis.max == axis.min {
        MARGIN_TOP + PLOT_HEIGHT / 2
    } else {
        MARGIN_TOP + PLOT_HEIGHT - ((value - axis.min) * PLOT_HEIGHT) / (axis.max - axis.min)
    }
}

/// Where `value` stands on a value axis. A value above the axis
/// stands above the plot.
pub fn scale_y(value: u32, axis: &Axis) -> (r: i64)
    requires
        axis.min <= value,
        axis.min <= axis.max,
    ensures
        r == y_of(value, *axis),
{
    if axis.max == axis.min {
        MARGIN_TOP + PLOT_HEIGHT / 2
    } else {
        let range: i128 = (axis.max - axis.min) as i128;
        let height: i128 = PLOT_HEIGHT as i128;
        let way: i128 = (value as u64 - axis.min) as i128 * height;
        assert(0 <= way / range <= way) by (nonlinear_arith)
            requires
                way >= 0,
                range >= 1,
        ;
        MARGIN_TOP + PLOT_HEIGHT - (way / range) as i64
    }
}

} // verus!
