use std::time::Duration;

use weldr::config::Config;

#[test]
fn test_config() {
    let conf = Config::default();
    assert_eq!(Duration::from_secs(10), conf.health_check.interval);
    assert_eq!("/", conf.health_check.uri_path);
    assert_eq!(Some(Duration::from_millis(200)), conf.timeout.connect);
    assert_eq!(Some(Duration::from_secs(2)), conf.timeout.write);
    assert_eq!(Some(Duration::from_secs(2)), conf.timeout.read);
}

#[test]
fn test_config_thresholds() {
    let conf = Config::default();
    assert_eq!(3, conf.health_check.failures);
    assert_eq!(2, conf.health_check.passes);
    let copy = conf.clone();
    assert_eq!(conf.health_check.interval, copy.health_check.interval);
    assert_eq!(conf.health_check.uri_path, copy.health_check.uri_path);
    assert_eq!(conf.timeout.connect, copy.timeout.connect);
}
