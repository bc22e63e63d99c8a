use std::time::Duration;
use tupl_dp::add;
use tupl_dp::bridge::scheduler::SchedulerConfig;

#[test]
fn it_works() {
    let result = add(2, 2);
    assert_eq!(result, 4);
}

#[test]
fn test_scheduler_config_defaults() {
    let config = SchedulerConfig::default();
    assert!(config.enabled);
    assert_eq!(config.refresh_interval.as_secs(), 6 * 60 * 60);
}

#[test]
fn test_scheduler_creation() {
    let config = SchedulerConfig::default();
    assert!(config.enabled);
    assert_eq!(config.refresh_interval.as_secs(), 21600);
}

#[test]
fn test_scheduler_config_custom() {
    let config = SchedulerConfig {
        refresh_interval: Duration::from_secs(3600),
        enabled: false,
    };
    assert!(!config.enabled);
    assert_eq!(config.refresh_interval.as_secs(), 3600);
}
