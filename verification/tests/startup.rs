use sidecar_relay::startup::{startup_config, SpawnError};
use sidecar_relay::text::{i32_decimal, u32_decimal};

#[test]
fn debug_builds_attach_logging_and_no_sidecar() {
    let config = startup_config(true);
    assert!(config.enable_logging);
    assert!(!config.enable_sidecar);
}

#[test]
fn production_builds_spawn_the_sidecar_and_no_logging() {
    let config = startup_config(false);
    assert!(!config.enable_logging);
    assert!(config.enable_sidecar);
}

#[test]
fn spawn_error_keeps_its_diagnostic() {
    let error = SpawnError::new("Failed to spawn sidecar".to_string());
    assert_eq!(error.message(), "Failed to spawn sidecar");
}

#[test]
fn decimal_rendering_matches_the_usual_notation() {
    assert_eq!(u32_decimal(0), "0");
    assert_eq!(u32_decimal(10), "10");
    assert_eq!(u32_decimal(4294967295), "4294967295");
    assert_eq!(i32_decimal(0), "0");
    assert_eq!(i32_decimal(-1), "-1");
    assert_eq!(i32_decimal(207), "207");
    assert_eq!(i32_decimal(-10), "-10");
}
