use ow2stats::config::{default_database_url, default_log_level, default_port, Config};
use ow2stats::error::AppError;

#[test]
fn defaults_match_the_documented_values() {
    assert_eq!(default_database_url(), "postgresql://localhost/ow2stats");
    assert_eq!(default_port(), 3000);
    assert_eq!(default_log_level(), "info");
    let c = Config::default();
    assert_eq!(c.database_url, "postgresql://localhost/ow2stats");
    assert_eq!(c.port, 3000);
    assert_eq!(c.log_level, "info");
}

#[test]
fn from_parts_prefers_supplied_values() {
    let c = Config::from_parts(Some("postgresql://db/prod".to_string()), Some(8080), None);
    assert_eq!(c.database_url, "postgresql://db/prod");
    assert_eq!(c.port, 8080);
    assert_eq!(c.log_level, "info");
}

#[test]
fn from_parts_falls_back_field_by_field() {
    let c = Config::from_parts(None, None, Some("debug".to_string()));
    assert_eq!(c.database_url, "postgresql://localhost/ow2stats");
    assert_eq!(c.port, 3000);
    assert_eq!(c.log_level, "debug");
}

#[test]
fn database_errors_are_masked_as_internal() {
    let e = AppError::Database { message: "connection refused".to_string() };
    let (status, message) = e.status_and_message();
    assert_eq!(status, 500);
    assert_eq!(message, "Internal server error");
}

#[test]
fn serialization_errors_map_to_bad_request() {
    let e = AppError::Serialization { message: "unexpected token".to_string() };
    let (status, message) = e.status_and_message();
    assert_eq!(status, 400);
    assert_eq!(message, "Invalid JSON format");
}

#[test]
fn validation_errors_carry_their_message() {
    let e = AppError::Validation { message: "No heroes provided".to_string() };
    let (status, message) = e.status_and_message();
    assert_eq!(status, 400);
    assert_eq!(message, "No heroes provided");
}

#[test]
fn not_found_names_the_resource() {
    let e = AppError::NotFound { resource: "Hero".to_string() };
    let (status, message) = e.status_and_message();
    assert_eq!(status, 404);
    assert_eq!(message, "Hero not found");
}
