use metrics_aggregator::sorting::sort_values;
use metrics_aggregator::summary::{
    percentiles, ranks_of_summary, summarize, Mean, Percentiles, Summary,
};
use metrics_aggregator::text::{copy_texts, same_text};

#[test]
fn sort_values_orders_ascending() {
    assert_eq!(sort_values(&vec![3, -1, 2, 2, 10, i64::MIN, i64::MAX]), vec![
        i64::MIN,
        -1,
        2,
        2,
        3,
        10,
        i64::MAX
    ]);
    assert_eq!(sort_values(&vec![]), Vec::<i64>::new());
    assert_eq!(sort_values(&vec![7]), vec![7]);
    assert_eq!(sort_values(&vec![5, 4, 3, 2, 1]), vec![1, 2, 3, 4, 5]);
}

#[test]
fn summarize_nothing_is_none() {
    assert_eq!(summarize(&vec![]), None);
    assert_eq!(percentiles(&vec![], &vec![90]), None);
}

#[test]
fn summarize_mean_min_max_are_exact() {
    let summary = summarize(&vec![40, 10, 30, 20]).unwrap();
    assert_eq!(summary.usage, Mean { total: 100, count: 4 });
    assert_eq!(summary.min, 10);
    assert_eq!(summary.max, 40);
}

#[test]
fn summarize_mean_is_not_rounded() {
    let summary = summarize(&vec![1, 2]).unwrap();
    assert_eq!(summary.usage, Mean { total: 3, count: 2 });
    let summary = summarize(&vec![-5, 2, 2]).unwrap();
    assert_eq!(summary.usage, Mean { total: -1, count: 3 });
    assert_eq!(summary.min, -5);
    assert_eq!(summary.max, 2);
}

#[test]
fn summarize_one_value() {
    assert_eq!(
        summarize(&vec![42]),
        Some(Summary {
            usage: Mean { total: 42, count: 1 },
            min: 42,
            max: 42,
            percentile: Percentiles { p90: 42, p95: 42, p99: 42 },
        })
    );
}

#[test]
fn summarize_sum_does_not_overflow() {
    let summary = summarize(&vec![i64::MAX, i64::MAX, i64::MAX]).unwrap();
    assert_eq!(summary.usage, Mean { total: 3 * (i64::MAX as i128), count: 3 });
    let summary = summarize(&vec![i64::MIN, i64::MIN]).unwrap();
    assert_eq!(summary.usage, Mean { total: 2 * (i64::MIN as i128), count: 2 });
    assert_eq!(summary.min, i64::MIN);
    assert_eq!(summary.max, i64::MIN);
}

#[test]
fn summarize_percentiles_of_one_hundred_values() {
    let values: Vec<i64> = (1..=100).rev().collect();
    let summary = summarize(&values).unwrap();
    assert_eq!(summary.percentile, Percentiles { p90: 90, p95: 95, p99: 99 });
    assert_eq!(summary.usage, Mean { total: 5050, count: 100 });
}

#[test]
fn summarize_percentiles_by_nearest_rank() {
    let values: Vec<i64> = (1..=10).collect();
    assert_eq!(summarize(&values).unwrap().percentile, Percentiles { p90: 9, p95: 10, p99: 10 });
    let values: Vec<i64> = (1..=200).collect();
    assert_eq!(
        summarize(&values).unwrap().percentile,
        Percentiles { p90: 180, p95: 190, p99: 198 }
    );
    assert_eq!(
        summarize(&vec![300, 100]).unwrap().percentile,
        Percentiles { p90: 300, p95: 300, p99: 300 }
    );
}

#[test]
fn percentiles_are_monotonic() {
    let sets: Vec<Vec<i64>> = vec![
        vec![5],
        vec![9, 1],
        vec![3, 3, 3],
        vec![-7, 100, 4, 4, 18, -200, 55],
        (0..1000).map(|i| (i * 7919) % 1009 - 500).collect(),
    ];
    for values in sets {
        let summary = summarize(&values).unwrap();
        assert!(summary.min <= summary.percentile.p90);
        assert!(summary.percentile.p90 <= summary.percentile.p95);
        assert!(summary.percentile.p95 <= summary.percentile.p99);
        assert!(summary.percentile.p99 <= summary.max);
    }
}

#[test]
fn percentiles_follow_the_order_of_the_ranks() {
    let values: Vec<i64> = (1..=100).collect();
    assert_eq!(percentiles(&values, &vec![90, 95, 99]), Some(vec![90, 95, 99]));
    assert_eq!(percentiles(&values, &vec![99, 90, 95]), Some(vec![99, 90, 95]));
    assert_eq!(percentiles(&values, &vec![95, 95, 1]), Some(vec![95, 95, 1]));
    assert_eq!(percentiles(&values, &vec![]), Some(vec![]));
}

#[test]
fn percentiles_at_the_ends() {
    let values: Vec<i64> = vec![30, 10, 20];
    assert_eq!(percentiles(&values, &vec![0, 1, 33, 34, 66, 67, 100, 255]), Some(vec![
        10, 10, 10, 20, 20, 30, 30, 30
    ]));
}

#[test]
fn same_text_compares_characters() {
    assert!(same_text("", ""));
    assert!(same_text("hour", "hour"));
    assert!(!same_text("hour", "hours"));
    assert!(!same_text("hour", "houR"));
    assert!(!same_text("a", ""));
    assert!(same_text("nämespace-ß", "nämespace-ß"));
    assert!(!same_text("é", "e"));
}

#[test]
fn copy_texts_keeps_order() {
    let texts = vec!["b".to_string(), "a".to_string(), "b".to_string()];
    assert_eq!(copy_texts(&texts), texts);
    assert_eq!(copy_texts(&vec![]), Vec::<String>::new());
}

#[test]
fn ranks_of_summary_are_ninety_ninety_five_ninety_nine() {
    assert_eq!(ranks_of_summary(), vec![90, 95, 99]);
}
