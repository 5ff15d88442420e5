use appcore::config::AppConfig;
use appcore::error::AppError;
use appcore::health::format_uptime;
use appcore::health::health_response;
use appcore::health::DefaultHealthService;
use appcore::health::HealthService;
use appcore::partials::greeting_name;
use appcore::partials::GreetingQuery;
use appcore::text::u64_to_string;
use appcore::Services;
use appcore::SessionStore;

#[test]
fn default_config_values() {
    let config = AppConfig::default();
    assert_eq!(config.server.host, "0.0.0.0");
    assert_eq!(config.server.port, 3000);
    assert_eq!(config.logging.level, "info");
    assert_eq!(config.environment.environment, "development");
    assert_eq!(config.environment.log_level, "info");
    assert_eq!(config.database.url, "sqlite://data.db?mode=rwc");
    assert!(config.is_development());
    assert!(!config.is_production());
}

#[test]
fn environment_checks() {
    let mut config = AppConfig::default();
    config.environment.environment = "production".to_string();
    assert!(config.is_production());
    assert!(!config.is_development());
    config.environment.environment = "staging".to_string();
    assert!(!config.is_production());
    assert!(!config.is_development());
}

#[test]
fn error_status_codes() {
    assert_eq!(AppError::not_found("x").status_code(), 404);
    assert_eq!(AppError::bad_request("x").status_code(), 400);
    assert_eq!(AppError::validation("x").status_code(), 400);
    assert_eq!(AppError::Unauthorized.status_code(), 401);
    assert_eq!(AppError::internal("x").status_code(), 500);
    assert_eq!(AppError::Database("x".to_string()).status_code(), 500);
}

#[test]
fn error_presentation() {
    assert_eq!(AppError::not_found("missing").alert_class(), "warning");
    assert_eq!(AppError::not_found("missing").icon(), "search");
    assert_eq!(AppError::bad_request("bad").alert_class(), "warning");
    assert_eq!(AppError::bad_request("bad").icon(), "exclamation-triangle");
    assert_eq!(AppError::Unauthorized.alert_class(), "danger");
    assert_eq!(AppError::Unauthorized.icon(), "lock");
    assert_eq!(AppError::internal("boom").alert_class(), "danger");
    assert_eq!(AppError::internal("boom").icon(), "x-circle");
}

#[test]
fn error_constructors_carry_message() {
    match AppError::validation("too short") {
        AppError::Validation(m) => assert_eq!(m, "too short"),
        _ => panic!("wrong variant"),
    }
}

#[test]
fn uptime_formatting() {
    assert_eq!(format_uptime(0), "< 1m");
    assert_eq!(format_uptime(59), "< 1m");
    assert_eq!(format_uptime(60), "1m");
    assert_eq!(format_uptime(3600), "1h");
    assert_eq!(format_uptime(3660), "1h 1m");
    assert_eq!(format_uptime(86400), "1d");
    assert_eq!(format_uptime(90061), "1d 1h 1m");
    assert_eq!(format_uptime(2 * 86400 + 5 * 3600 + 42 * 60 + 7), "2d 5h 42m");
}

#[test]
fn decimal_rendering() {
    assert_eq!(u64_to_string(0), "0");
    assert_eq!(u64_to_string(7), "7");
    assert_eq!(u64_to_string(10), "10");
    assert_eq!(u64_to_string(1234567890), "1234567890");
    assert_eq!(u64_to_string(u64::MAX), "18446744073709551615");
}

#[test]
fn health_status_report() {
    let service = DefaultHealthService::new(100);
    let health = service.get_status(3 * 3600 + 100);
    assert_eq!(health.status, "healthy");
    assert_eq!(health.version, "0.1.0");
    assert_eq!(health.uptime_seconds, 3 * 3600);
    assert_eq!(health.uptime_formatted, "3h");
    // A clock reading before the start counts as zero uptime.
    let early = service.get_status(50);
    assert_eq!(early.uptime_seconds, 0);
    assert_eq!(early.uptime_formatted, "< 1m");
}

#[test]
fn health_response_copies_fields() {
    let service = DefaultHealthService::new(0);
    let health = service.get_status(60);
    let response = health_response(&health);
    assert_eq!(response.status, health.status);
    assert_eq!(response.version, health.version);
    assert_eq!(response.uptime_seconds, 60);
}

#[test]
fn greeting_defaults_to_world() {
    assert_eq!(greeting_name(GreetingQuery { name: None }), "World");
    assert_eq!(greeting_name(GreetingQuery { name: Some("Ada".to_string()) }), "Ada");
}

#[test]
fn default_services_wiring() {
    let mut services = Services::new_default(1234);
    let health = services.health.get_status(1294);
    assert_eq!(health.uptime_seconds, 60);
    let session = services.sessions.create(0);
    assert!(services.sessions.get(&session.id, 0).is_some());
    let token = services.csrf.generate_token(&session.id);
    assert!(services.csrf.validate_token(&token, &session.id));
}
