use elhem::climate::ClimateSet;
use elhem::climate::VerisureData;
use elhem::cycle::combine_cycle;
use elhem::errors::Error;
use elhem::price::HourlyPrice;
use elhem::price::TibberData;

fn some_prices() -> Option<TibberData> {
    Some(TibberData {
        hourly_prices: vec![HourlyPrice { total: 100, starts_at: 1704160800 }],
    })
}

fn some_climate() -> Option<VerisureData> {
    Some(VerisureData {
        climate: ClimateSet {
            entries: vec![("Kitchen".to_string(), 21500)],
        },
    })
}

#[test]
fn price_failure_does_not_suppress_climate() {
    let r = combine_cycle(
        Err(Error::NetworkError("connection refused".to_string())),
        Ok(some_climate()),
    );
    assert!(r.prices.is_none());
    assert!(matches!(r.price_error, Some(Error::NetworkError(_))));
    let climate = r.climate.expect("climate result must survive a price failure");
    assert_eq!(climate.climate.entries, vec![("Kitchen".to_string(), 21500)]);
    assert!(r.climate_error.is_none());
}

#[test]
fn climate_failure_does_not_suppress_prices() {
    let r = combine_cycle(Ok(some_prices()), Err(Error::NotFoundError));
    assert!(r.prices.is_some());
    assert!(r.price_error.is_none());
    assert!(r.climate.is_none());
    assert!(matches!(r.climate_error, Some(Error::NotFoundError)));
}

#[test]
fn both_sides_pass_through() {
    let r = combine_cycle(Ok(some_prices()), Ok(some_climate()));
    assert!(r.prices.is_some());
    assert!(r.climate.is_some());
    assert!(r.price_error.is_none() && r.climate_error.is_none());

    let r = combine_cycle(
        Err(Error::ConfigError("no token".to_string())),
        Err(Error::AuthError("denied".to_string())),
    );
    assert!(r.prices.is_none() && r.climate.is_none());
    assert!(matches!(r.price_error, Some(Error::ConfigError(_))));
    assert!(matches!(r.climate_error, Some(Error::AuthError(_))));
}

#[test]
fn error_labels() {
    assert_eq!(Error::ConfigError("x".to_string()).label(), "config error");
    assert_eq!(Error::AuthError("x".to_string()).label(), "auth error");
    assert_eq!(Error::NotFoundError.label(), "not found");
    assert_eq!(Error::NetworkError("x".to_string()).label(), "network error");
    assert_eq!(Error::DecodeError("x".to_string()).label(), "decode error");
}
