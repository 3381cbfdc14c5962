use weldr::mgmt::api::{
    add_server, all_servers_reponse, get_servers, index, remove_server, route, status, AdminError,
    Link, Method, Route,
};
use weldr::mgmt::manager::{
    publish_new_server, publish_server_state_active, publish_server_state_down, Change, Event,
    Manager, PublisherImpl, SubscriberMap, SubscriptionImpl, Worker, MAX_IN_FLIGHT,
};
use weldr::mgmt::worker::SubscriberImpl;
use weldr::pool::Pool;
use weldr::server::Server;

#[test]
fn subscribers_get_growing_ids() {
    let mut publisher = PublisherImpl::new(SubscriberMap::new());
    let a = publisher.subscribe().unwrap();
    let b = publisher.subscribe().unwrap();
    let c = publisher.subscribe().unwrap();
    assert_eq!(0, a.id());
    assert_eq!(1, b.id());
    assert_eq!(2, c.id());
    assert_eq!(3, publisher.len());
    assert_eq!(Some(0), publisher.in_flight(1));
    publisher.unsubscribe(b);
    assert_eq!(2, publisher.len());
    assert_eq!(None, publisher.in_flight(1));
    // an id is not handed out again
    assert_eq!(3, publisher.subscribe().unwrap().id());
}

#[test]
fn publish_goes_to_every_subscriber_with_room() {
    let mut manager = Manager::new();
    manager.subscribe().unwrap();
    manager.subscribe().unwrap();
    let p = manager.publish_new_server("http://127.0.0.1:6000/");
    assert_eq!(Event { change: Change::AddServer, url: "http://127.0.0.1:6000/".to_string() }, p.event);
    assert_eq!(vec![0, 1], p.subscribers);
    let p = manager.publish_server_state_down("http://127.0.0.1:6000/");
    assert_eq!(Change::MarkServerDown, p.event.change);
    assert_eq!(vec![0, 1], p.subscribers);
    let p = manager.publish_server_state_active("http://127.0.0.1:6000/");
    assert_eq!(Change::MarkServerActive, p.event.change);
    assert_eq!(vec![0, 1], p.subscribers);
}

#[test]
fn sixth_publish_in_flight_is_skipped() {
    let mut subscribers = SubscriberMap::new();
    let mut publisher = PublisherImpl::new(subscribers);
    let slow = publisher.subscribe().unwrap();
    let fast = publisher.subscribe().unwrap();
    for _ in 0..MAX_IN_FLIGHT {
        assert_eq!(vec![slow.id(), fast.id()], publisher.publish());
        publisher.complete(fast.id(), true);
    }
    assert_eq!(Some(5), publisher.in_flight(slow.id()));
    assert_eq!(Some(0), publisher.in_flight(fast.id()));
    // the slow one is passed over, and nothing is queued for it
    assert_eq!(vec![fast.id()], publisher.publish());
    assert_eq!(Some(5), publisher.in_flight(slow.id()));
    publisher.complete(slow.id(), true);
    assert_eq!(Some(4), publisher.in_flight(slow.id()));
    assert_eq!(vec![slow.id(), fast.id()], publisher.publish());
    subscribers = SubscriberMap::new();
    assert_eq!(0, subscribers.len());
}

#[test]
fn failed_delivery_drops_the_subscriber_only() {
    let mut manager = Manager::new();
    let first = manager.subscribe().unwrap();
    let second = manager.subscribe().unwrap();
    assert_eq!(vec![0, 1], manager.publish_new_server("http://a/").subscribers);
    manager.delivery_ended(first.id(), false);
    manager.delivery_ended(second.id(), true);
    assert_eq!(vec![1], manager.publish_new_server("http://b/").subscribers);
    // the end of a delivery to one who has left changes nothing
    manager.delivery_ended(first.id(), true);
    manager.delivery_ended(7, false);
    assert_eq!(vec![1], manager.publish_new_server("http://c/").subscribers);
}

#[test]
fn free_publish_functions_mark_the_map() {
    let mut map = SubscriberMap::new();
    assert!(publish_new_server("http://a/", &mut map).subscribers.is_empty());
    assert!(publish_server_state_down("http://a/", &mut map).subscribers.is_empty());
    let p = publish_server_state_active("http://a/", &mut map);
    assert_eq!(Event::new(Change::MarkServerActive, "http://a/"), p.event);
    let s = SubscriptionImpl::new(4);
    assert_eq!(4, s.id());
    s.drop(&mut map);
    assert_eq!(0, map.len());
}

#[test]
fn workers_are_numbered_from_zero() {
    let mut manager = Manager::new();
    let ids = manager.start_workers(5);
    assert_eq!(vec![0, 1, 2, 3, 4], ids);
    for id in ids {
        manager.worker_started(id, 1000 + id as i32);
    }
    let started = manager.started();
    assert_eq!(5, started.len());
    assert_eq!(Worker { id: 3, pid: 1003 }, started[3]);
    assert!(manager.start_workers(0).is_empty());
}

#[test]
fn worker_applies_what_the_manager_publishes() {
    let mut subscriber = SubscriberImpl::new(Pool::default());
    assert!(subscriber.add_server("http://127.0.0.1:6000"));
    assert!(!subscriber.add_server("http://127.0.0.1:6000/"));
    assert!(!subscriber.add_server(""));
    let server = Server::parse("http://127.0.0.1:6000", false).unwrap();
    let backend = subscriber.pool().find(&server).unwrap();
    assert!(backend.is_active());
    assert!(backend.server().map_host());

    assert!(subscriber.mark_server_down("http://127.0.0.1:6000"));
    assert!(subscriber.pool().find(&server).unwrap().is_down());
    assert!(!subscriber.mark_server_down("http://127.0.0.1:9999"));
    assert!(!subscriber.mark_server_active(""));
    assert!(subscriber.mark_server_active("http://127.0.0.1:6000"));
    assert!(subscriber.pool().find(&server).unwrap().is_active());

    subscriber.handle(&Event::new(Change::MarkServerDown, "http://127.0.0.1:6000/"));
    subscriber.handle(&Event::new(Change::AddServer, "http://127.0.0.1:6001/"));
    subscriber.handle(&Event::new(Change::MarkServerActive, "http://nowhere/"));
    let pool = subscriber.into_pool();
    let all = pool.all();
    assert_eq!(2, all.len());
    assert!(all[0].is_down());
    assert!(all[1].is_active());
}

#[test]
fn index_links_to_the_servers() {
    let page = index();
    assert_eq!("Weldr Management API", page.about);
    assert_eq!(
        vec![Link { rel: "servers".to_string(), href: "/servers".to_string(), method: None }],
        page.links
    );
}

#[test]
fn server_list_carries_delete_links() {
    let mut pool = Pool::default();
    pool.add(Server::parse("http://127.0.0.1:6000", false).unwrap());
    pool.add(Server::parse("http://127.0.0.1:6001", false).unwrap());
    let list = get_servers(&pool);
    assert_eq!(list, all_servers_reponse(&pool));
    assert_eq!(2, list.servers.len());
    assert_eq!("http://127.0.0.1:6001/", list.servers[1].url);
    assert_eq!(
        Some(vec![Link {
            rel: "delete".to_string(),
            href: "/servers/http://127.0.0.1:6001/".to_string(),
            method: Some("DELETE".to_string()),
        }]),
        list.servers[1].links
    );
    assert_eq!(
        Some(vec![Link {
            rel: "add".to_string(),
            href: "/servers".to_string(),
            method: Some("POST".to_string()),
        }]),
        list.links
    );
}

#[test]
fn adding_a_server_publishes_it_once() {
    let mut pool = Pool::default();
    let mut manager = Manager::new();
    manager.subscribe().unwrap();

    let added = add_server(&mut pool, &mut manager, "http://127.0.0.1:6000").unwrap();
    assert_eq!(1, added.servers.servers.len());
    let publish = added.publish.unwrap();
    assert_eq!(Event::new(Change::AddServer, "http://127.0.0.1:6000/"), publish.event);
    assert_eq!(vec![0], publish.subscribers);
    assert!(!pool.all()[0].server().map_host());

    let again = add_server(&mut pool, &mut manager, "http://127.0.0.1:6000").unwrap();
    assert_eq!(1, again.servers.servers.len());
    assert_eq!(None, again.publish);

    assert_eq!(Err(AdminError::BadUrl), add_server(&mut pool, &mut manager, "http://"));
    assert_eq!(1, pool.all().len());
}

#[test]
fn removing_a_server_answers_with_the_rest() {
    let mut pool = Pool::default();
    pool.add(Server::parse("http://127.0.0.1:6000", false).unwrap());
    pool.add(Server::parse("http://127.0.0.1:6001", false).unwrap());
    let list = remove_server(&mut pool, "http://127.0.0.1:6000/");
    assert_eq!(1, list.servers.len());
    assert_eq!("http://127.0.0.1:6001/", list.servers[0].url);
    let list = remove_server(&mut pool, "http://127.0.0.1:7777/");
    assert_eq!(1, list.servers.len());
    let list = remove_server(&mut pool, "");
    assert_eq!(1, list.servers.len());
}

#[test]
fn requests_are_routed_by_method_and_path() {
    assert_eq!(Route::Index, route(Method::Get, "/"));
    assert_eq!(Route::Servers, route(Method::Get, "/servers"));
    assert_eq!(Route::AddServer, route(Method::Post, "/servers"));
    assert_eq!(
        Route::RemoveServer("http://127.0.0.1:6000/".to_string()),
        route(Method::Delete, "/servers/http://127.0.0.1:6000/")
    );
    assert_eq!(Route::RemoveServer("\u{e9}".to_string()), route(Method::Delete, "/servers/\u{e9}"));
    assert_eq!(Route::NotFound, route(Method::Delete, "/servers/"));
    assert_eq!(Route::NotFound, route(Method::Delete, "/servers"));
    assert_eq!(Route::NotFound, route(Method::Post, "/"));
    assert_eq!(Route::NotFound, route(Method::Get, "/servers/"));
    assert_eq!(Route::NotFound, route(Method::Other, "/"));
    assert_eq!(Route::NotFound, route(Method::Get, ""));
}

#[test]
fn status_codes_follow_the_route() {
    assert_eq!(200, status(&Route::Index, false));
    assert_eq!(200, status(&Route::Servers, false));
    assert_eq!(400, status(&Route::AddServer, true));
    assert_eq!(404, status(&Route::NotFound, false));
    assert_eq!(404, status(&Route::NotFound, true));
}
