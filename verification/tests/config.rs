use layoutswap::config::{migrate_schema_version, Config, SCHEMA_VERSION};
use layoutswap::error::AppError;

#[test]
fn a_fresh_config_is_schema_version_one() {
    assert_eq!(SCHEMA_VERSION, 1);
    assert_eq!(Config::default().schema_version, 1);
}

#[test]
fn version_one_loads_and_a_newer_version_is_refused() {
    assert!(matches!(migrate_schema_version(Some(1), "config.json"), Ok(1)));
    match migrate_schema_version(Some(2), "config.json") {
        Err(AppError::UnknownSchemaVersion { found, supported, path }) => {
            assert_eq!((found, supported), (2, 1));
            assert_eq!(path, "config.json");
        }
        other => panic!("expected UnknownSchemaVersion, got {other:?}"),
    }
    assert!(matches!(migrate_schema_version(Some(0), "config.json"), Err(AppError::ConfigInvalid { .. })));
    assert!(matches!(migrate_schema_version(None, "config.json"), Err(AppError::ConfigInvalid { .. })));
}
