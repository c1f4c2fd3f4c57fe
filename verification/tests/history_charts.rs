use lightdash::timeline::{Moment, Reading, Timeline};
use lightdash::history::{
    axis, date_of, deduplicate_consecutive_points, endpoints, format_timestamp, is_leap_year,
    scale_x, scale_y, truncate_node_id, Axis, ChartType, Date,
};

fn points(values: &[u32]) -> Vec<(i32, i32, u32, u32)> {
    values.iter().enumerate().map(|(i, v)| (i as i32, -(i as i32), 100 + i as u32, *v)).collect()
}

fn values(points: &[(i32, i32, u32, u32)]) -> Vec<u32> {
    points.iter().map(|p| p.3).collect()
}

#[test]
fn leap_years() {
    assert!(is_leap_year(2000));
    assert!(is_leap_year(2024));
    assert!(is_leap_year(1972));
    assert!(!is_leap_year(1900));
    assert!(!is_leap_year(2100));
    assert!(!is_leap_year(2023));
    assert!(is_leap_year(0));
}

#[test]
fn timestamps_as_dates() {
    assert_eq!(format_timestamp(0), "1970-01-01");
    assert_eq!(format_timestamp(86_399), "1970-01-01");
    assert_eq!(format_timestamp(86_400), "1970-01-02");
    assert_eq!(format_timestamp(951_782_400), "2000-02-29");
    assert_eq!(format_timestamp(951_868_800), "2000-03-01");
    assert_eq!(format_timestamp(1_700_000_000), "2023-11-14");
    assert_eq!(format_timestamp(1_704_067_199), "2023-12-31");
    assert_eq!(format_timestamp(1_704_067_200), "2024-01-01");
    assert_eq!(format_timestamp(1_709_164_800), "2024-02-29");
    assert_eq!(format_timestamp(u32::MAX), "2106-02-07");
    assert_eq!(date_of(1_700_000_000), Date { year: 2023, month: 11, day: 14 });
    assert_eq!(date_of(31_535_999), Date { year: 1970, month: 12, day: 31 });
    assert_eq!(date_of(31_536_000), Date { year: 1971, month: 1, day: 1 });
}

#[test]
fn dates_agree_with_chrono() {
    for ts in [0u32, 1, 86_400, 68_256_000, 951_782_400, 1_234_567_890, 1_700_000_000, u32::MAX] {
        let expected = chrono::DateTime::from_timestamp(ts as i64, 0)
            .expect("a date")
            .format("%Y-%m-%d")
            .to_string();
        assert_eq!(format_timestamp(ts), expected);
    }
}

#[test]
fn long_node_ids_are_truncated() {
    assert_eq!(truncate_node_id(""), "");
    assert_eq!(truncate_node_id("0123456789abcdef"), "0123456789abcdef");
    assert_eq!(truncate_node_id("0123456789abcdefg"), "01234567...9abcdefg");
    assert_eq!(
        truncate_node_id("02aaaaaaaabbbbbbbbccccccccddddddddeeeeeeeeffffffff0000000011111111"),
        "02aaaaaa...11111111"
    );
}

#[test]
fn runs_of_equal_values_keep_their_first_and_last_point() {
    let out = deduplicate_consecutive_points(points(&[1, 2, 5, 5, 5, 5, 10, 10, 11]));
    assert_eq!(values(&out), vec![1, 2, 5, 5, 10, 10, 11]);
    let kept: Vec<u32> = out.iter().map(|p| p.2 - 100).collect();
    assert_eq!(kept, vec![0, 1, 2, 5, 6, 7, 8]);
    assert_eq!(out[3], (5, -5, 105, 5));
}

#[test]
fn short_and_flat_series_of_points() {
    assert!(deduplicate_consecutive_points(vec![]).is_empty());
    assert_eq!(values(&deduplicate_consecutive_points(points(&[7]))), vec![7]);
    assert_eq!(values(&deduplicate_consecutive_points(points(&[7, 7]))), vec![7, 7]);
    assert_eq!(values(&deduplicate_consecutive_points(points(&[7, 8]))), vec![7, 8]);
    assert_eq!(values(&deduplicate_consecutive_points(points(&[7, 7, 7]))), vec![7, 7]);
    assert_eq!(values(&deduplicate_consecutive_points(points(&[7, 7, 7, 7, 7]))), vec![7, 7]);
    assert_eq!(values(&deduplicate_consecutive_points(points(&[1, 1, 1, 2]))), vec![1, 1, 2]);
    assert_eq!(values(&deduplicate_consecutive_points(points(&[1, 2, 2, 2]))), vec![1, 2, 2]);
    assert_eq!(values(&deduplicate_consecutive_points(points(&[1, 2, 1, 2]))), vec![1, 2, 1, 2]);
}

#[test]
fn value_axes_are_padded_by_a_tenth() {
    assert_eq!(axis(100, 200, ChartType::HtlcMax), Axis { min: 90, max: 210 });
    assert_eq!(axis(100, 200, ChartType::Fee), Axis { min: 90, max: 210 });
    assert_eq!(axis(5, 5, ChartType::Fee), Axis { min: 5, max: 5 });
    assert_eq!(axis(0, 1_000, ChartType::Fee), Axis { min: 0, max: 1_100 });
    assert_eq!(axis(5, 1_000, ChartType::Fee), Axis { min: 0, max: 1_099 });
    assert_eq!(axis(100, 5_000, ChartType::Fee), Axis { min: 0, max: 4_000 });
    assert_eq!(axis(100, 5_000, ChartType::HtlcMax), Axis { min: 0, max: 5_490 });
    assert_eq!(
        axis(0, u32::MAX, ChartType::HtlcMax),
        Axis { min: 0, max: u32::MAX as u64 + (u32::MAX / 10) as u64 }
    );
}

#[test]
fn points_are_placed_by_their_share_of_the_way() {
    assert_eq!(scale_x(100, 100, 200), 80);
    assert_eq!(scale_x(200, 100, 200), 950);
    assert_eq!(scale_x(150, 100, 200), 515);
    assert_eq!(scale_x(101, 100, 103), 370);
    assert_eq!(scale_x(100, 100, 100), 80);
    assert_eq!(scale_x(u32::MAX, 0, u32::MAX), 950);
    let a = Axis { min: 90, max: 210 };
    assert_eq!(scale_y(90, &a), 520);
    assert_eq!(scale_y(210, &a), 40);
    assert_eq!(scale_y(150, &a), 280);
    assert_eq!(scale_y(100, &a), 480);
    assert_eq!(scale_y(270, &a), -200);
    assert_eq!(scale_y(5, &Axis { min: 5, max: 5 }), 280);
}

#[test]
fn the_two_ends_of_a_channel_come_in_a_stable_order() {
    let s = |v: &[&str]| -> Vec<String> { v.iter().map(|x| x.to_string()).collect() };
    assert_eq!(endpoints(&s(&["03b", "02a"])), Some(("02a".to_string(), "03b".to_string())));
    assert_eq!(endpoints(&s(&["02a", "03b"])), Some(("02a".to_string(), "03b".to_string())));
    assert_eq!(
        endpoints(&s(&["03b", "02a", "03b", "02a"])),
        Some(("02a".to_string(), "03b".to_string()))
    );
    assert_eq!(endpoints(&s(&["02a"])), None);
    assert_eq!(endpoints(&s(&["02a", "02a"])), None);
    assert_eq!(endpoints(&s(&[])), None);
    assert_eq!(endpoints(&s(&["02a", "03b", "04c"])), None);
}

fn reading(timestamp: u32, fee: u32, htlc: u32) -> Reading {
    Reading { timestamp, fee_per_millionth: fee, htlc_maximum: htlc }
}

#[test]
fn the_history_of_a_channel_ascends_instant_by_instant() {
    let first = vec![reading(300, 10, 1), reading(100, 20, 2), reading(300, 30, 3)];
    let second = vec![reading(200, 40, 4), reading(100, 50, 5)];
    let line = Timeline::of(&first, &second);
    assert_eq!(
        line.moments(),
        &vec![
            Moment { timestamp: 100, first: Some(first[1]), second: Some(second[1]) },
            Moment { timestamp: 200, first: None, second: Some(second[0]) },
            Moment { timestamp: 300, first: Some(first[2]), second: None },
        ]
    );
    assert!(Timeline::of(&vec![], &vec![]).moments().is_empty());
    let one = Timeline::of(&vec![], &vec![reading(7, 1, 1)]);
    assert_eq!(one.moments().len(), 1);
    assert_eq!(one.moments()[0].first, None);
}

#[test]
fn the_chart_of_a_history() {
    let first = vec![
        reading(100, 100, 5),
        reading(200, 100, 5),
        reading(300, 100, 5),
        reading(400, 200, 5),
    ];
    let second = vec![reading(200, 150, 9), reading(400, 150, 9)];
    let line = Timeline::of(&first, &second);
    assert_eq!(line.value_bounds(ChartType::Fee), Some((100, 200)));
    assert_eq!(line.value_bounds(ChartType::HtlcMax), Some((5, 9)));
    let chart = line.chart(ChartType::Fee).expect("a chart");
    assert_eq!((chart.first_time, chart.last_time), (100, 400));
    assert_eq!(chart.axis, Axis { min: 90, max: 210 });
    assert_eq!(
        chart.first_points,
        vec![(80, 480, 100, 100), (660, 480, 300, 100), (950, 80, 400, 200)]
    );
    assert_eq!(chart.second_points, vec![(370, 280, 200, 150), (950, 280, 400, 150)]);
    assert_eq!(chart.value_marks, vec![90, 114, 138, 162, 186, 210]);
    assert_eq!(chart.time_marks, vec![100, 150, 200, 250, 300, 350, 400]);
    let flat = line.chart(ChartType::HtlcMax).expect("a chart");
    assert_eq!(flat.axis, Axis { min: 5, max: 9 });
    assert_eq!(flat.first_points, vec![(80, 520, 100, 5), (950, 520, 400, 5)]);
}

#[test]
fn no_chart_without_readings_or_above_the_axis() {
    assert!(Timeline::of(&vec![], &vec![]).chart(ChartType::Fee).is_none());
    assert_eq!(Timeline::of(&vec![], &vec![]).value_bounds(ChartType::Fee), None);
    let dear = Timeline::of(&vec![reading(1, 9_000, 1)], &vec![reading(2, 9_500, 1)]);
    assert!(dear.chart(ChartType::Fee).is_none());
    assert!(dear.chart(ChartType::HtlcMax).is_some());
    let capped = Timeline::of(&vec![reading(1, 100, 1)], &vec![reading(2, 9_500, 1)]);
    let chart = capped.chart(ChartType::Fee).expect("a chart");
    assert_eq!(chart.axis, Axis { min: 0, max: 4_000 });
    assert_eq!(chart.second_points, vec![(950, -620, 2, 9_500)]);
    let single = Timeline::of(&vec![reading(5, 7, 7)], &vec![]);
    let chart = single.chart(ChartType::Fee).expect("a chart");
    assert_eq!(chart.first_points, vec![(80, 280, 5, 7)]);
    assert_eq!(chart.time_marks, vec![5; 7]);
    assert_eq!(chart.value_marks, vec![7; 6]);
}
