use elhem::clock::current_hour_start;
use elhem::clock::hour_floor;
use elhem::price::normalize_prices;
use elhem::price::Home;
use elhem::price::MyQuery;
use elhem::price::Price;
use elhem::price::PriceInfo;
use elhem::price::PriceLevel;
use elhem::price::Subscription;
use elhem::price::Viewer;

fn entry(starts_at: Option<&str>, total: Option<i64>) -> Price {
    Price {
        currency: "SEK".to_string(),
        energy: None,
        level: Some(PriceLevel::Normal),
        starts_at: starts_at.map(|s| s.to_string()),
        tax: None,
        total,
    }
}

fn query_of(today: Vec<Option<Price>>, tomorrow: Vec<Option<Price>>) -> MyQuery {
    MyQuery {
        viewer: Viewer {
            login: None,
            user_id: None,
            name: None,
            websocket_subscription_url: None,
            homes: vec![Some(Home {
                current_subscription: Some(Subscription {
                    price_info: Some(PriceInfo { today, tomorrow }),
                }),
            })],
        },
    }
}

// 2024-01-02T02:00:00Z
const START: i64 = 1704160800;

#[test]
fn sorted_and_filtered() {
    // Out of order, one entry before the cutoff, one with a missing total,
    // one with unparseable text, one explicit null entry.
    let q = query_of(
        vec![
            Some(entry(Some("2024-01-02T04:00:00Z"), Some(900))),
            Some(entry(Some("2024-01-02T03:00:00Z"), Some(400))),
            Some(entry(Some("2024-01-02T01:00:00Z"), Some(50))),
            Some(entry(Some("2024-01-02T05:00:00Z"), None)),
            Some(entry(Some("not a timestamp"), Some(999))),
            None,
        ],
        vec![Some(entry(Some("2024-01-02T02:00:00Z"), Some(100)))],
    );
    let r = normalize_prices(&q, START);
    let got: Vec<(i64, i64)> = r
        .hourly_prices
        .iter()
        .map(|p| (p.starts_at, p.total))
        .collect();
    assert_eq!(
        got,
        vec![
            (1704160800, 100),
            (1704164400, 400),
            (1704168000, 900),
        ]
    );
}

#[test]
fn duplicate_timestamps_keep_first() {
    // The same instant appears in both windows, once with a UTC offset and
    // once with a +01:00 offset; the today entry comes first and wins.
    let q = query_of(
        vec![Some(entry(Some("2024-01-02T03:00:00Z"), Some(400)))],
        vec![
            Some(entry(Some("2024-01-02T04:00:00+01:00"), Some(777))),
            Some(entry(Some("2024-01-02T03:00:00Z"), Some(888))),
        ],
    );
    let r = normalize_prices(&q, START);
    let got: Vec<(i64, i64)> = r
        .hourly_prices
        .iter()
        .map(|p| (p.starts_at, p.total))
        .collect();
    assert_eq!(got, vec![(1704164400, 400)]);
}

#[test]
fn no_subscription_yields_empty_series() {
    let q = MyQuery {
        viewer: Viewer {
            login: None,
            user_id: None,
            name: None,
            websocket_subscription_url: None,
            homes: vec![Some(Home { current_subscription: None }), None],
        },
    };
    let r = normalize_prices(&q, START);
    assert!(r.hourly_prices.is_empty());
}

#[test]
fn current_hour_start_is_hour_aligned() {
    let r = current_hour_start();
    assert!(r >= 0);
    assert_eq!(r % 3600, 0);
}

#[test]
fn hour_floor_truncates() {
    assert_eq!(hour_floor(7199), 3600);
    assert_eq!(hour_floor(7200), 7200);
    assert_eq!(hour_floor(0), 0);
    assert_eq!(hour_floor(START + 59 * 60 + 59), START);
}
