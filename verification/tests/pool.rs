use weldr::pool::{Backend, Dispatch, InnerPool, Pool, PoolError};
use weldr::server::Server;

fn server(url: &str) -> Server {
    Server::parse(url, false).unwrap()
}

#[test]
fn test_rrb_backend() {
    let backends: Vec<Backend> = vec![
        Backend::new(server("http://127.0.0.1:6000")),
        Backend::new(server("http://127.0.0.1:6001")),
    ];

    let mut rrb = InnerPool::new(backends);
    assert_eq!(2, rrb.len());

    let first = rrb.get().unwrap();
    let second = rrb.get().unwrap();
    let third = rrb.get().unwrap();
    let fourth = rrb.get().unwrap();
    assert_eq!(first, third);
    assert_eq!(second, fourth);
    assert!(first != second);
}

#[test]
fn test_empty_rrb_backend() {
    let backends = vec![];
    let mut rrb = InnerPool::new(backends);
    assert_eq!(0, rrb.len());
    assert!(rrb.get().is_none());
    assert!(rrb.all().is_empty());
}

#[test]
fn test_add_to_rrb_backend() {
    let mut rrb = InnerPool::new(vec![]);
    assert!(rrb.get().is_none());
    let server = server("http://127.0.0.1:6000");
    let backend = Backend::new(server.clone());
    rrb.add(backend);
    let b1 = Backend::new(server.clone());
    assert!(rrb.get().is_some());
    assert_eq!(vec![b1], rrb.all());
}

#[test]
fn test_remove_from_rrb_backend() {
    let mut rrb = InnerPool::new(vec![]);
    let server1 = server("http://127.0.0.1:6000");
    let server2 = server("http://127.0.0.1:6001");
    rrb.add(Backend::new(server1.clone()));
    rrb.add(Backend::new(server2.clone()));
    assert_eq!(2, rrb.len());
    let b1 = Backend::new(server1.clone());
    let b2 = Backend::new(server2.clone());
    assert_eq!(vec![b1.clone(), b2.clone()], rrb.all());

    let unknown_server = server("http://127.0.0.1:1234");
    rrb.remove(&unknown_server);
    assert_eq!(2, rrb.len());
    assert_eq!(vec![b1.clone(), b2.clone()], rrb.all());

    rrb.remove(&server1);
    assert_eq!(1, rrb.len());
    assert_eq!(vec![b2.clone()], rrb.all());

    rrb.remove(&server2);
    assert_eq!(0, rrb.len());
    assert!(rrb.all().is_empty());
}

#[test]
fn add_same_server_twice_keeps_one() {
    let mut pool = Pool::default();
    assert!(pool.add(server("http://127.0.0.1:6000")));
    assert!(!pool.add(server("http://127.0.0.1:6000")));
    // the flag plays no part in what a server is
    assert!(!pool.add(Server::parse("http://127.0.0.1:6000", true).unwrap()));
    let all = pool.all();
    assert_eq!(1, all.len());
    assert_eq!("http://127.0.0.1:6000/", all[0].server().url());
    assert!(all[0].is_active());
}

#[test]
fn new_pool_keeps_first_of_equal_servers() {
    let mut down = Backend::new(server("http://a/"));
    down.mark_down();
    let pool = InnerPool::new(vec![
        down,
        Backend::new(server("http://b/")),
        Backend::new(server("http://a/")),
    ]);
    let all = pool.all();
    assert_eq!(2, all.len());
    assert!(all[0].is_down());
    assert_eq!("http://b/", all[1].server().url());
}

#[test]
fn selection_skips_down_backends() {
    let mut pool = Pool::default();
    let a = server("http://a/");
    let b = server("http://b/");
    let c = server("http://c/");
    pool.add(a.clone());
    pool.add(b.clone());
    pool.add(c.clone());
    assert!(pool.mark_down(&b));
    // the cursor starts on the first backend, so the turn begins after it
    assert_eq!(Ok(c.clone()), pool.select());
    assert_eq!(Ok(a.clone()), pool.select());
    assert_eq!(Ok(c.clone()), pool.select());
    assert!(pool.mark_active(&b));
    assert_eq!(Ok(a.clone()), pool.select());
    assert_eq!(Ok(b.clone()), pool.select());
    assert_eq!(Ok(c.clone()), pool.select());
}

#[test]
fn selection_fails_when_all_are_down() {
    let mut pool = Pool::default();
    assert_eq!(Err(PoolError::Exhausted), pool.select());
    let a = server("http://a/");
    pool.add(a.clone());
    pool.mark_down(&a);
    assert_eq!(Err(PoolError::Exhausted), pool.select());
    assert!(!pool.mark_down(&server("http://nowhere/")));
    pool.mark_active(&a);
    assert_eq!(Ok(a), pool.select());
}

#[test]
fn cursor_out_of_range_is_folded_back() {
    let mut pool = InnerPool::new(vec![]);
    let a = server("http://a/");
    let b = server("http://b/");
    let c = server("http://c/");
    pool.add(Backend::new(a.clone()));
    pool.add(Backend::new(b.clone()));
    pool.add(Backend::new(c.clone()));
    assert_eq!(b, pool.get().unwrap().server());
    assert_eq!(c, pool.get().unwrap().server());
    assert_eq!(2, pool.cursor());
    pool.remove(&c);
    pool.remove(&b);
    // removal leaves the cursor alone
    assert_eq!(2, pool.cursor());
    assert_eq!(a, pool.get().unwrap().server());
    assert_eq!(0, pool.cursor());
}

#[test]
fn completed_dispatches_are_counted() {
    let mut pool = Pool::default();
    let a = server("http://a/");
    pool.add(a.clone());
    assert!(pool.complete(&a, Dispatch::Responded(200)));
    assert!(pool.complete(&a, Dispatch::Responded(499)));
    assert!(pool.complete(&a, Dispatch::Responded(500)));
    assert!(pool.complete(&a, Dispatch::Responded(503)));
    assert!(pool.complete(&a, Dispatch::Failed));
    assert!(!pool.complete(&server("http://b/"), Dispatch::Failed));
    let backend = pool.find(&a).unwrap();
    assert_eq!(2, backend.successes());
    assert_eq!(3, backend.failures());
    assert_eq!(5, backend.successes() + backend.failures());
    assert!(pool.find(&server("http://b/")).is_none());
}

#[test]
fn request_counts_what_the_dispatch_reports() {
    let mut pool = Pool::default();
    let a = server("http://a/");
    pool.add(a.clone());
    let seen = pool.request(|s: &Server| -> Result<(u16, String), ()> { Ok((204, s.url())) });
    assert_eq!(Ok(Ok((204, "http://a/".to_string()))), seen);
    let failed = pool.request(|_s: &Server| -> Result<(u16, ()), &'static str> { Err("timeout") });
    assert_eq!(Ok(Err("timeout")), failed);
    let bad = pool.request(|_s: &Server| -> Result<(u16, ()), ()> { Ok((502, ())) });
    assert_eq!(Ok(Ok((502, ()))), bad);
    let backend = pool.find(&a).unwrap();
    assert_eq!(1, backend.successes());
    assert_eq!(2, backend.failures());
}

#[test]
fn request_on_exhausted_pool_calls_nothing() {
    let mut pool = Pool::default();
    let mut called = false;
    let r = pool.request(|_s: &Server| -> Result<(u16, ()), ()> {
        called = true;
        Ok((200, ()))
    });
    assert_eq!(Err(PoolError::Exhausted), r);
    assert!(!called);
}

#[test]
fn server_parse_refuses_what_is_no_uri() {
    assert!(Server::parse("", false).is_none());
    assert!(Server::parse("http://", false).is_none());
    let s = Server::parse("http://example.com:8080", true).unwrap();
    assert_eq!("http://example.com:8080/", s.url());
    assert!(s.map_host());
    let t = Server::new("http://example.com:8080/".to_string(), false);
    assert!(s == t);
}
