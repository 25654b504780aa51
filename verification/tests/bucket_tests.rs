use elhem::bucket::bucket;
use elhem::bucket::BucketLevel;
use elhem::price::HourlyPrice;
use elhem::price::TibberData;

fn series(totals: &[i64]) -> TibberData {
    TibberData {
        hourly_prices: totals
            .iter()
            .enumerate()
            .map(|(i, &t)| HourlyPrice {
                total: t,
                starts_at: 1704160800 + 3600 * i as i64,
            })
            .collect(),
    }
}

fn levels(totals: &[i64]) -> Vec<BucketLevel> {
    bucket(&series(totals)).into_iter().map(|e| e.level).collect()
}

#[test]
fn empty_series_yields_empty_buckets() {
    let r = bucket(&series(&[]));
    assert!(r.is_empty());
}

#[test]
fn single_point_is_low() {
    // A degenerate range: min == max, delta == 0, and the non-strict
    // boundary puts the single point in the low bucket.
    assert_eq!(levels(&[1200]), vec![BucketLevel::Low]);
}

#[test]
fn single_point_above_cap_is_high() {
    // Capping pulls the upper bound below the minimum, so the point lies
    // above both thresholds.
    assert_eq!(levels(&[1800]), vec![BucketLevel::High]);
}

#[test]
fn capped_range_classification() {
    // Totals 0.10, 0.40, 0.90, 1.80 currency units: the max is capped at
    // 1.5, so min = 0.10, delta = 1.40, third ~ 0.467. The spike itself is
    // still compared against the same thresholds.
    assert_eq!(
        levels(&[100, 400, 900, 1800]),
        vec![
            BucketLevel::Low,
            BucketLevel::Low,
            BucketLevel::Medium,
            BucketLevel::High,
        ]
    );
}

#[test]
fn boundary_ties_resolve_low_intensity() {
    // min = 0, delta = 900, third = 300: totals exactly at min + third and
    // min + 2*third take the lower-intensity bucket.
    assert_eq!(
        levels(&[0, 300, 600, 900]),
        vec![
            BucketLevel::Low,
            BucketLevel::Low,
            BucketLevel::Medium,
            BucketLevel::High,
        ]
    );
}

#[test]
fn display_and_labels() {
    let r = bucket(&series(&[100, 1234]));
    assert_eq!(r.len(), 2);
    assert_eq!(r[0].display_tenths, 100);
    assert_eq!(r[1].display_tenths, 1234);
    for e in &r {
        assert_eq!(e.hour_label.chars().count(), 2);
        assert!(e.hour_label.chars().all(|c| c.is_ascii_digit()));
        let h: u32 = e.hour_label.parse().unwrap();
        assert!(h < 24);
    }
}
