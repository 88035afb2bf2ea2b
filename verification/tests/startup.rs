use harbr_router::startup::{adjust_logging_level, display_system_info};
use harbr_router::{Config, DEFAULT_CONFIG_FILE, MAX_PROXY_INSTANCES, VERSION};

#[test]
fn test_version() {
    assert!(!VERSION.is_empty());
    assert!(VERSION.contains('.'));
}

#[test]
fn test_default_config_file() {
    assert_eq!(DEFAULT_CONFIG_FILE, "config.yml");
}

#[test]
fn verbosity_sets_the_level() {
    assert!(MAX_PROXY_INSTANCES > 0);
    assert_eq!(adjust_logging_level(0), None);
    assert!(adjust_logging_level(1).is_some());
    assert_ne!(adjust_logging_level(1), adjust_logging_level(2));
}

#[test]
fn system_information_names_the_cores() {
    let config = Config { global: Default::default(), proxy_instances: vec![] };
    let lines = display_system_info(8, 6, &config);
    assert!(lines.iter().any(|l| l.contains('8')));
    assert!(lines.iter().any(|l| l.contains('6')));
}
