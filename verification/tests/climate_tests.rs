use elhem::climate::basic_auth_header;
use elhem::climate::climate_query_body;
use elhem::climate::installations_query_body;
use elhem::climate::Climate;
use elhem::climate::ClimateSession;
use elhem::climate::Device;
use elhem::climate::LoginTokens;
use elhem::climate::OwaInstallation;
use elhem::climate::SessionStage;
use elhem::errors::Error;

fn tokens() -> LoginTokens {
    LoginTokens {
        access_token: "at".to_string(),
        access_token_max_age_seconds: 900,
        refresh_token: "rt".to_string(),
        refresh_token_max_age_seconds: 3600,
    }
}

fn installation(giid: &str) -> OwaInstallation {
    OwaInstallation {
        giid: giid.to_string(),
        alias: "Home".to_string(),
        kind: "standard".to_string(),
        subsidiary: None,
        dealer_id: None,
    }
}

fn record(area: &str, temp: Option<i64>) -> Climate {
    Climate {
        device: Device {
            device_label: format!("{area}-device"),
            area: area.to_string(),
        },
        temperature_value: temp,
    }
}

fn authenticated() -> ClimateSession {
    let mut s = ClimateSession::new();
    s.login(200, Some(tokens()), "").unwrap();
    s
}

fn resolved() -> ClimateSession {
    let mut s = authenticated();
    let insts = vec![installation("112832675891")];
    s.resolve_installation_id(200, Some(&insts), "").unwrap();
    s
}

#[test]
fn basic_auth_is_encoded() {
    // base64("user:pass") with the standard alphabet and no padding.
    assert_eq!(basic_auth_header("user", "pass"), "Basic dXNlcjpwYXNz");
}

#[test]
fn query_bodies_embed_the_variable() {
    let b = installations_query_body("someone@example.com");
    assert!(b.contains("\"operationName\":\"AccountInstallations\""));
    assert!(b.contains("\"email\":\"someone@example.com\""));
    let c = climate_query_body("112832675891");
    assert!(c.contains("\"operationName\":\"Climate\""));
    assert!(c.contains("\"giid\":\"112832675891\""));
}

#[test]
fn login_rejection_reports_body() {
    let mut s = ClimateSession::new();
    let r = s.login(401, Some(tokens()), "bad credentials");
    match r {
        Err(Error::AuthError(m)) => assert_eq!(m, "bad credentials"),
        other => panic!("expected AuthError, got {other:?}"),
    }
    assert_eq!(s.current_stage(), SessionStage::Unauthenticated);
}

#[test]
fn login_malformed_body_is_auth_error() {
    let mut s = ClimateSession::new();
    let r = s.login(200, None, "{}");
    assert!(matches!(r, Err(Error::AuthError(_))));
    assert_eq!(s.current_stage(), SessionStage::Unauthenticated);
}

#[test]
fn empty_installation_list_is_not_found() {
    let mut s = authenticated();
    let insts: Vec<OwaInstallation> = vec![];
    let r = s.resolve_installation_id(200, Some(&insts), "");
    assert!(matches!(r, Err(Error::NotFoundError)));
    assert_eq!(s.current_stage(), SessionStage::Authenticated);
}

#[test]
fn installation_schema_mismatch_is_decode_error() {
    let mut s = authenticated();
    let r = s.resolve_installation_id(200, None, "");
    assert!(matches!(r, Err(Error::DecodeError(_))));
}

#[test]
fn first_installation_wins() {
    let mut s = authenticated();
    let insts = vec![installation("ABC123"), installation("XYZ789")];
    let r = s.resolve_installation_id(200, Some(&insts), "");
    assert_eq!(r.unwrap(), "ABC123");
    assert_eq!(s.current_stage(), SessionStage::InstallationResolved);
}

#[test]
fn null_temperature_is_skipped() {
    let mut s = resolved();
    let recs = vec![record("Garage", None)];
    let r = s.fetch_climate(200, Some(&recs), "").unwrap();
    assert!(r.climate.entries.is_empty());
}

#[test]
fn full_handshake_scenario() {
    let mut s = ClimateSession::new();
    s.login(200, Some(tokens()), "").unwrap();
    let insts = vec![installation("ABC123")];
    let giid = s.resolve_installation_id(200, Some(&insts), "").unwrap();
    assert_eq!(giid, "ABC123");
    let recs = vec![record("Kitchen", Some(21500)), record("Garage", None)];
    let r = s.fetch_climate(200, Some(&recs), "").unwrap();
    assert_eq!(r.climate.entries, vec![("Kitchen".to_string(), 21500)]);
    assert_eq!(s.current_stage(), SessionStage::ClimateFetched);
}

#[test]
fn repeated_area_keeps_last_reading() {
    let mut s = resolved();
    let recs = vec![
        record("Kitchen", Some(100)),
        record("Kitchen", Some(200)),
        record("Kitchen", None),
    ];
    let r = s.fetch_climate(200, Some(&recs), "").unwrap();
    assert_eq!(r.climate.entries, vec![("Kitchen".to_string(), 200)]);
}

#[test]
fn areas_come_out_sorted() {
    let mut s = resolved();
    let recs = vec![
        record("Ute", Some(-14800)),
        record("Inne", Some(20900)),
        record("Garage", Some(5000)),
    ];
    let r = s.fetch_climate(200, Some(&recs), "").unwrap();
    let areas: Vec<&str> = r.climate.entries.iter().map(|e| e.0.as_str()).collect();
    assert_eq!(areas, vec!["Garage", "Inne", "Ute"]);
}

#[test]
fn climate_rejection_reports_body() {
    let mut s = resolved();
    let r = s.fetch_climate(500, None, "server error");
    match r {
        Err(Error::AuthError(m)) => assert_eq!(m, "server error"),
        other => panic!("expected AuthError, got {other:?}"),
    }
    assert_eq!(s.current_stage(), SessionStage::InstallationResolved);
}

#[test]
fn climate_schema_mismatch_is_decode_error() {
    let mut s = resolved();
    let r = s.fetch_climate(200, None, "");
    assert!(matches!(r, Err(Error::DecodeError(_))));
}
