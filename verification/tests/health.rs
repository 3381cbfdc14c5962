use weldr::config::HealthCheck;
use weldr::mgmt::health::{fail_step, observe, pass_step, run, BackendHealth, HealthState, Probe};
use weldr::mgmt::manager::{Change, Event};
use weldr::pool::{Backend, Pool};
use weldr::server::Server;

fn backend() -> Backend {
    Backend::new(
        Server::parse(
            "http://127.0.0.1:6000
                ",
            false,
        )
        .unwrap(),
    )
}

#[test]
fn test_should_mark_active() {
    let mut backend = backend();
    let passes = 2;

    let mut health = BackendHealth::new();
    backend.mark_down();
    assert_eq!(false, health.should_mark_active(&backend, passes));
    assert_eq!(true, health.should_mark_active(&backend, passes));
}

#[test]
fn test_should_mark_down() {
    let backend = backend();
    let failures = 2;

    let mut health = BackendHealth::new();
    assert_eq!(false, health.should_mark_down(&backend, failures));
    assert_eq!(true, health.should_mark_down(&backend, failures));
}

#[test]
fn test_backend_flapping() {
    let backend = backend();
    let passes = 3;
    let failures = 2;

    let mut health = BackendHealth::new();
    assert_eq!(false, health.should_mark_down(&backend, failures));
    assert_eq!(false, health.should_mark_active(&backend, passes));
    // should not be marked down here because the failures need to be consecutive
    assert_eq!(false, health.should_mark_down(&backend, failures));
    assert_eq!(true, health.should_mark_down(&backend, failures));
}

fn conf(passes: u64, failures: u64) -> HealthCheck {
    let mut c = HealthCheck::default();
    c.passes = passes;
    c.failures = failures;
    c
}

#[test]
fn down_backend_comes_back_after_two_passes() {
    let server = Server::parse("http://127.0.0.1:6000", false).unwrap();
    let mut pool = Pool::default();
    pool.add(server.clone());
    pool.mark_down(&server);
    let mut health = BackendHealth::new();
    let conf = conf(2, 3);

    assert_eq!(None, observe(&mut pool, &mut health, &server, Probe::Responded(200), &conf));
    assert_eq!(HealthState::Passing(1), health.state(&server));
    assert!(pool.find(&server).unwrap().is_down());

    let event = observe(&mut pool, &mut health, &server, Probe::Responded(200), &conf);
    assert_eq!(
        Some(Event { change: Change::MarkServerActive, url: "http://127.0.0.1:6000/".to_string() }),
        event
    );
    assert!(pool.find(&server).unwrap().is_active());
    assert_eq!(HealthState::Passing(0), health.state(&server));
}

#[test]
fn failure_between_passes_starts_the_count_again() {
    let server = Server::parse("http://127.0.0.1:6000", false).unwrap();
    let mut pool = Pool::default();
    pool.add(server.clone());
    pool.mark_down(&server);
    let mut health = BackendHealth::new();
    let conf = conf(2, 3);

    assert_eq!(None, observe(&mut pool, &mut health, &server, Probe::Responded(200), &conf));
    assert_eq!(HealthState::Passing(1), health.state(&server));
    assert_eq!(None, observe(&mut pool, &mut health, &server, Probe::Failed, &conf));
    assert_eq!(HealthState::Failing(0), health.state(&server));
    assert_eq!(None, observe(&mut pool, &mut health, &server, Probe::Responded(204), &conf));
    assert_eq!(HealthState::Passing(1), health.state(&server));
    assert!(pool.find(&server).unwrap().is_down());
    assert!(observe(&mut pool, &mut health, &server, Probe::Responded(399), &conf).is_some());
    assert!(pool.find(&server).unwrap().is_active());
}

#[test]
fn flapping_backend_stays_active() {
    let server = Server::parse("http://127.0.0.1:6000", false).unwrap();
    let mut pool = Pool::default();
    pool.add(server.clone());
    let mut health = BackendHealth::new();
    let conf = conf(2, 2);

    assert_eq!(None, observe(&mut pool, &mut health, &server, Probe::Failed, &conf));
    assert_eq!(None, observe(&mut pool, &mut health, &server, Probe::Responded(200), &conf));
    assert_eq!(None, observe(&mut pool, &mut health, &server, Probe::Responded(500), &conf));
    assert!(pool.find(&server).unwrap().is_active());
    assert_eq!(HealthState::Failing(1), health.state(&server));

    let event = observe(&mut pool, &mut health, &server, Probe::BadUrl, &conf);
    assert_eq!(
        Some(Event { change: Change::MarkServerDown, url: "http://127.0.0.1:6000/".to_string() }),
        event
    );
    assert!(pool.find(&server).unwrap().is_down());
    assert_eq!(HealthState::Failing(0), health.state(&server));
}

#[test]
fn status_400_fails_and_399_passes() {
    assert_eq!(
        (HealthState::Failing(1), false),
        fail_step(true, HealthState::Passing(0), 3)
    );
    assert!(!Probe::Responded(400).is_pass());
    assert!(Probe::Responded(399).is_pass());
    assert!(!Probe::Failed.is_pass());
    assert!(!Probe::BadUrl.is_pass());
}

#[test]
fn steps_follow_the_table() {
    // success probes
    assert_eq!((HealthState::Passing(7), false), pass_step(true, HealthState::Passing(7), 2));
    assert_eq!((HealthState::Passing(0), false), pass_step(true, HealthState::Failing(7), 2));
    assert_eq!((HealthState::Passing(2), false), pass_step(false, HealthState::Passing(1), 3));
    assert_eq!((HealthState::Passing(0), true), pass_step(false, HealthState::Passing(2), 3));
    assert_eq!((HealthState::Passing(1), false), pass_step(false, HealthState::Failing(9), 3));
    // failure probes
    assert_eq!((HealthState::Failing(7), false), fail_step(false, HealthState::Failing(7), 2));
    assert_eq!((HealthState::Failing(0), false), fail_step(false, HealthState::Passing(7), 2));
    assert_eq!((HealthState::Failing(2), false), fail_step(true, HealthState::Failing(1), 3));
    assert_eq!((HealthState::Failing(0), true), fail_step(true, HealthState::Failing(2), 3));
    assert_eq!((HealthState::Failing(1), false), fail_step(true, HealthState::Passing(9), 3));
    // thresholds at the edges
    assert_eq!((HealthState::Passing(0), true), pass_step(false, HealthState::Passing(0), 0));
    assert_eq!((HealthState::Passing(0), true), pass_step(false, HealthState::Passing(0), 1));
    assert_eq!(
        (HealthState::Failing(0), true),
        fail_step(true, HealthState::Failing(u64::MAX), u64::MAX)
    );
}

#[test]
fn probe_of_a_server_that_left_changes_nothing() {
    let server = Server::parse("http://127.0.0.1:6000", false).unwrap();
    let mut pool = Pool::default();
    let mut health = BackendHealth::new();
    let conf = conf(1, 1);
    assert_eq!(None, observe(&mut pool, &mut health, &server, Probe::Failed, &conf));
    assert_eq!(HealthState::Passing(0), health.state(&server));
    assert!(pool.all().is_empty());
}

#[test]
fn a_pass_plans_one_probe_per_backend() {
    let mut pool = Pool::default();
    pool.add(Server::parse("http://127.0.0.1:6000", false).unwrap());
    pool.add(Server::new("".to_string(), false));
    let mut conf = HealthCheck::default();
    conf.uri_path = "health".to_string();
    let targets = run(&pool, &conf);
    assert_eq!(2, targets.len());
    assert_eq!("http://127.0.0.1:6000/", targets[0].server.url());
    assert_eq!(Some("http://127.0.0.1:6000/health".to_string()), targets[0].url);
    // "health" alone is read as an authority, so the probe has a URL
    assert_eq!(Some("health".to_string()), targets[1].url);
    conf.uri_path = "".to_string();
    let targets = run(&pool, &conf);
    assert_eq!(None, targets[1].url);
}
